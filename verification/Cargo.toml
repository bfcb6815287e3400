[package]
name = "hyprdusk"
version = "0.1.0"
edition = "2021"
publish = false

[dependencies]
chrono = "0.4"
gdk = "0.18"
gio = "0.18"
glib = "0.18"
grass = "0.13"
gtk = "0.18"
gtk-layer-shell = "0.8"
hyprland = "0.3"
mpris = "2"
system-tray = "0.1"
tokio = { version = "1", features = ["full"] }
