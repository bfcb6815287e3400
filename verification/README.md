# hyprdusk

A status bar for the Hyprland compositor, built on GTK 3 and a layer shell.

- `src/` is the verified library: workspace buttons and focus, the system
  tray's item state and the menus built from it, the choice and conversion
  of tray icon pixmaps, the subscriber lists of the services, the window
  title label, the tracked media players and the clock label.
- `app/` is the program around it: windows and widgets, the tokio runtime
  and channels, the compositor and D-Bus connections.
- `tests/` runs the library on concrete values.
