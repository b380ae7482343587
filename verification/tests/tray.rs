use celeste::tray::{argb_pixels, tray_icon, Tray, TrayIcon};

#[test]
fn new_tray_awaits_sync_checks() {
    let t = Tray::new("Awaiting sync checks...".to_string());
    assert_eq!(t.status(), "Awaiting sync checks...");
    assert_eq!(t.status, "Awaiting sync checks...");
    assert_eq!(t.icon, "com.hunterwittenborn.Celeste.CelesteTrayLoading-symbolic");
    assert_eq!(tray_icon(&t.icon), TrayIcon::Loading);
}

#[test]
fn setters_change_icon_and_keep_message() {
    let mut t = Tray::new("Warte auf Synchronisierung...".to_string());
    assert_eq!(t.status(), "Warte auf Synchronisierung...");
    t.set_msg("Syncing 'docs'...".to_string());
    assert_eq!(t.status(), "Syncing 'docs'...");
    assert_eq!(tray_icon(&t.icon), TrayIcon::Loading);
    t.set_syncing();
    assert_eq!(t.icon, "com.hunterwittenborn.Celeste.CelesteTraySyncing-symbolic");
    assert_eq!(tray_icon(&t.icon), TrayIcon::Syncing);
    t.set_warning();
    assert_eq!(tray_icon(&t.icon), TrayIcon::Warning);
    t.set_done();
    assert_eq!(tray_icon(&t.icon), TrayIcon::Done);
    t.set_disconnected();
    assert_eq!(t.icon, "com.hunterwittenborn.Celeste.CelesteTrayDisconnected-symbolic");
    assert_eq!(tray_icon(&t.icon), TrayIcon::Disconnected);
    assert_eq!(t.status(), "Syncing 'docs'...");
}

#[test]
fn unknown_icon_names_show_loading() {
    assert_eq!(tray_icon("something-else"), TrayIcon::Loading);
    assert_eq!(tray_icon(""), TrayIcon::Loading);
}

#[test]
fn rgb_pixels_become_opaque_argb() {
    // two rows of two pixels, three channels, rows padded to eight bytes
    let pixels = [1, 2, 3, 4, 5, 6, 0, 0, 7, 8, 9, 10, 11, 12, 0, 0];
    let data = argb_pixels(&pixels, 8, 3, 2, 2);
    assert_eq!(data, vec![255, 1, 2, 3, 255, 4, 5, 6, 255, 7, 8, 9, 255, 10, 11, 12]);
}

#[test]
fn rgba_pixels_move_alpha_first() {
    let pixels = [10, 20, 30, 40, 50, 60, 70, 80];
    let data = argb_pixels(&pixels, 8, 4, 2, 1);
    assert_eq!(data, vec![40, 10, 20, 30, 80, 50, 60, 70]);
    assert_eq!(argb_pixels(&[], 0, 4, 0, 0), Vec::<u8>::new());
}
