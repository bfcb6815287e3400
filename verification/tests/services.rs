use hyprdusk::hyprland::{
    is_workspace_change, window_change_of, HyprlandEvent, HyprlandService, WindowEventData,
    WindowTitle,
};
use hyprdusk::listeners::ListenerList;
use hyprdusk::services::{Services, TrackedPlayers};

fn window(title: &str) -> WindowEventData {
    WindowEventData { window_class: "kitty".to_string(), window_title: title.to_string() }
}

#[test]
fn listeners_keep_registration_order() {
    let mut list = ListenerList::new();
    list.register("a");
    list.register("b");
    list.register("c");
    assert_eq!(list.listeners(), &vec!["a", "b", "c"]);
}

#[test]
fn unreachable_listeners_are_dropped() {
    let mut list = ListenerList::new();
    for l in ["a", "b", "c", "d"] {
        list.register(l);
    }
    list.retain_delivered(&vec![true, false, true, false]);
    assert_eq!(list.listeners(), &vec!["a", "c"]);
    list.retain_delivered(&vec![true, true]);
    assert_eq!(list.listeners(), &vec!["a", "c"]);
    list.retain_delivered(&vec![false, false]);
    assert!(list.listeners().is_empty());
}

#[test]
fn window_events_reach_window_subscribers() {
    let event = HyprlandEvent::ActiveWindowChange(Some(window("vim")));
    assert!(!is_workspace_change(&event));
    let data = window_change_of(event).unwrap().unwrap();
    assert_eq!(data.window_title, "vim");
    assert!(window_change_of(HyprlandEvent::ActiveWindowChange(None)).unwrap().is_none());
}

#[test]
fn workspace_events_reach_workspace_subscribers() {
    let event = HyprlandEvent::ActiveWorkspaceChange;
    assert!(is_workspace_change(&event));
    assert!(window_change_of(event).is_none());
}

#[test]
fn title_follows_active_window() {
    let mut title = WindowTitle::new(Some("start".to_string()));
    assert!(title.on_window_change(Some(window("editor"))));
    assert_eq!(title.text.as_deref(), Some("editor"));
    assert!(!title.on_window_change(None));
    assert_eq!(title.text.as_deref(), Some("editor"));
    let empty = WindowTitle::new(None);
    assert!(empty.text.is_none());
}

#[test]
fn fresh_services_are_empty() {
    let services: Services<u8> = Services::new();
    assert!(services.hyprland.listeners.listeners().is_empty());
    assert!(services.systray.entries().is_empty());
    let service: HyprlandService<u8> = HyprlandService::new();
    assert!(service.listeners.listeners().is_empty());
}

#[test]
fn players_are_tracked_once() {
    let mut players = TrackedPlayers::new();
    assert!(players.track(":1.10".to_string()));
    assert!(players.track(":1.11".to_string()));
    assert!(!players.track(":1.10".to_string()));
    assert!(players.contains(&":1.11".to_string()));
    assert!(!players.contains(&":1.12".to_string()));
}
