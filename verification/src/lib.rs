//! Verified core of a Hyprland status bar: workspace buttons, the system
//! tray state and its menus, icon pixmap handling, the event listeners of
//! the compositor service and the clock label.

pub mod decimal;
pub mod pixmap;
pub mod tray;
pub mod menu;
pub mod hyprland;
pub mod listeners;
pub mod workspaces;
pub mod clock;
pub mod services;
