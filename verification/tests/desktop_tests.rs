use vellum::desktop::{started_at_login, tray_action, Hub, QuitAction, TrayAction};

#[test]
fn the_hub_keeps_the_app_alive_only_while_on() {
    let mut hub = Hub::new();
    assert!(!hub.is_live());
    assert!(!hub.prevents_exit(None));
    assert_eq!(hub.on_menu_quit(), QuitAction::Exit);
    let fx = hub.set_background_sync(true, true);
    assert!(fx.tray_visible && fx.launch_at_login && !fx.exit);
    assert!(hub.prevents_exit(None));
    assert!(!hub.prevents_exit(Some(0)), "an explicit exit is never prevented");
    assert_eq!(hub.on_menu_quit(), QuitAction::CloseWindow);
    let fx = hub.set_background_sync(false, false);
    assert!(!fx.tray_visible && !fx.launch_at_login && fx.exit);
    let fx = hub.set_background_sync(false, true);
    assert!(!fx.exit);
}

#[test]
fn tray_entries_and_login_launches() {
    assert_eq!(tray_action("show"), TrayAction::Show);
    assert_eq!(tray_action("stop"), TrayAction::StopSync);
    assert_eq!(tray_action("quit"), TrayAction::Quit);
    assert_eq!(tray_action("status"), TrayAction::Ignore);
    assert!(started_at_login(&vec!["vellum".into(), "--autostart".into()]));
    assert!(!started_at_login(&vec!["vellum".into()]));
}
