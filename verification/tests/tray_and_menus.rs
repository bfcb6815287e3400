use hyprdusk::menu::{tray_menu_entries, MenuEntry, MenuEntryKind, StatusNotifierWrapper};
use hyprdusk::pixmap::IconPixmap;
use hyprdusk::tray::{
    retry_notifier_host, IconSource, MenuItem, MenuType, NotifierItem, NotifierItemMessage, StatusNotifierItem,
    SystrayService, TrayMenu,
};

fn status_item(id: &str) -> StatusNotifierItem {
    StatusNotifierItem {
        id: id.to_string(),
        icon_name: Some(format!("{id}-icon")),
        icon_theme_path: None,
        icon_pixmap: None,
        menu: Some("/MenuBar".to_string()),
    }
}

fn leaf(id: i32, label: &str) -> MenuItem {
    MenuItem { id, label: label.to_string(), menu_type: MenuType::Standard, submenu: vec![] }
}

fn separator(id: i32) -> MenuItem {
    MenuItem { id, label: String::new(), menu_type: MenuType::Separator, submenu: vec![] }
}

#[test]
fn update_then_get() {
    let mut tray = SystrayService::new();
    tray.update(":1.5".to_string(), NotifierItem { item: status_item("nm"), menu: None });
    let found = tray.get(&":1.5".to_string()).unwrap();
    assert_eq!(found.item.id, "nm");
    assert!(tray.get(&":1.6".to_string()).is_none());
    assert_eq!(tray.entries().len(), 1);
}

#[test]
fn update_replaces_existing_item() {
    let mut tray = SystrayService::new();
    tray.update("a".to_string(), NotifierItem { item: status_item("first"), menu: None });
    tray.update("b".to_string(), NotifierItem { item: status_item("other"), menu: None });
    tray.update("a".to_string(), NotifierItem { item: status_item("second"), menu: None });
    assert_eq!(tray.entries().len(), 2);
    assert_eq!(tray.get(&"a".to_string()).unwrap().item.id, "second");
    assert_eq!(tray.get(&"b".to_string()).unwrap().item.id, "other");
}

#[test]
fn remove_forgets_only_that_address() {
    let mut tray = SystrayService::new();
    tray.update("a".to_string(), NotifierItem { item: status_item("x"), menu: None });
    tray.update("b".to_string(), NotifierItem { item: status_item("y"), menu: None });
    tray.update("c".to_string(), NotifierItem { item: status_item("z"), menu: None });
    tray.remove(&"b".to_string());
    assert!(tray.get(&"b".to_string()).is_none());
    assert_eq!(tray.get(&"a".to_string()).unwrap().item.id, "x");
    assert_eq!(tray.get(&"c".to_string()).unwrap().item.id, "z");
    assert_eq!(tray.entries().len(), 2);
    tray.remove(&"missing".to_string());
    assert_eq!(tray.entries().len(), 2);
}

#[test]
fn messages_drive_the_tray() {
    let mut tray = SystrayService::new();
    tray.apply(NotifierItemMessage::Update {
        address: "a".to_string(),
        item: status_item("x"),
        menu: None,
    });
    tray.apply(NotifierItemMessage::Update {
        address: "b".to_string(),
        item: status_item("y"),
        menu: None,
    });
    tray.apply(NotifierItemMessage::Remove { address: "a".to_string() });
    let addresses: Vec<&str> = tray.entries().iter().map(|(a, _)| a.as_str()).collect();
    assert_eq!(addresses, vec!["b"]);
}

#[test]
fn appear_then_vanish_restores_tray() {
    let mut tray = SystrayService::new();
    tray.update("a".to_string(), NotifierItem { item: status_item("x"), menu: None });
    tray.update("new".to_string(), NotifierItem { item: status_item("n"), menu: None });
    tray.remove(&"new".to_string());
    assert_eq!(tray.entries().len(), 1);
    assert_eq!(tray.entries()[0].0, "a");
}

#[test]
fn icon_from_theme() {
    let mut item = NotifierItem { item: status_item("nm"), menu: None };
    item.item.icon_theme_path = Some("/usr/share/nm".to_string());
    match item.icon_source() {
        IconSource::Theme { icon_name, search_path } => {
            assert_eq!(icon_name.as_deref(), Some("nm-icon"));
            assert_eq!(search_path.as_deref(), Some("/usr/share/nm"));
        }
        other => panic!("unexpected {other:?}"),
    }
}

#[test]
fn icon_from_pixmaps() {
    let mut item = NotifierItem { item: status_item("nm"), menu: None };
    item.item.icon_pixmap = Some(vec![
        IconPixmap { width: 1, height: 64, pixels: vec![0; 256] },
        IconPixmap { width: 1, height: 24, pixels: vec![0; 96] },
    ]);
    assert!(matches!(item.icon_source(), IconSource::Pixmaps));
    item.item.icon_pixmap = Some(vec![]);
    assert!(matches!(item.icon_source(), IconSource::Pixmaps));
}

#[test]
fn icon_from_theme_without_name_or_path() {
    let mut item = NotifierItem { item: status_item("nm"), menu: None };
    item.item.icon_name = None;
    match item.icon_source() {
        IconSource::Theme { icon_name, search_path } => {
            assert!(icon_name.is_none());
            assert!(search_path.is_none());
        }
        other => panic!("unexpected {other:?}"),
    }
}

#[test]
fn host_registration_gives_up_after_ten_failures() {
    assert!(retry_notifier_host(0));
    assert!(retry_notifier_host(9));
    assert!(!retry_notifier_host(10));
    assert!(!retry_notifier_host(u32::MAX));
}

fn assert_click(entry: &MenuEntry, id: i32) {
    assert_eq!(entry.on_activate.submenu_id, id);
    assert_eq!(entry.on_activate.notifier_address, ":1.42");
    assert_eq!(entry.on_activate.menu_path, "/MenuBar");
}

#[test]
fn menu_tree_becomes_entries() {
    let mut parent = leaf(1, "Connections");
    parent.submenu = vec![leaf(2, "Wi-Fi"), separator(3), leaf(4, "Ethernet")];
    let entry = StatusNotifierWrapper { menu: parent }
        .into_menu_item(":1.42".to_string(), "/MenuBar".to_string());
    assert!(matches!(&entry.kind, MenuEntryKind::Labeled(l) if l == "Connections"));
    assert_click(&entry, 1);
    let children = entry.submenu.as_ref().unwrap();
    assert_eq!(children.len(), 3);
    assert!(matches!(&children[0].kind, MenuEntryKind::Labeled(l) if l == "Wi-Fi"));
    assert!(matches!(children[1].kind, MenuEntryKind::Separator));
    assert_click(&children[1], 3);
    assert_click(&children[2], 4);
    assert!(children.iter().all(|c| c.submenu.is_none()));
}

#[test]
fn leaf_entry_has_no_submenu() {
    let entry = StatusNotifierWrapper { menu: separator(9) }
        .into_menu_item(":1.42".to_string(), "/MenuBar".to_string());
    assert!(matches!(entry.kind, MenuEntryKind::Separator));
    assert!(entry.submenu.is_none());
    assert_click(&entry, 9);
}

#[test]
fn tray_menu_entries_of_item() {
    let item = NotifierItem {
        item: status_item("nm"),
        menu: Some(TrayMenu { id: 0, submenus: vec![leaf(5, "Quit"), leaf(6, "About")] }),
    };
    let entries = tray_menu_entries(&":1.42".to_string(), &item).unwrap();
    assert_eq!(entries.len(), 2);
    assert_click(&entries[0], 5);
    assert_click(&entries[1], 6);
}

#[test]
fn no_entries_without_menu() {
    let bare = NotifierItem { item: status_item("nm"), menu: None };
    assert!(tray_menu_entries(&"a".to_string(), &bare).is_none());
    let empty = NotifierItem { item: status_item("nm"), menu: Some(TrayMenu { id: 0, submenus: vec![] }) };
    assert!(tray_menu_entries(&"a".to_string(), &empty).is_none());
}
