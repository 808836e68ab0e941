use rexpaper::platform::tray::{
    menu_action, tray_click, tray_menu, tray_tooltip, MenuEntry, TrayAction, TrayClick,
    ID_TRAY_QUIT, WM_LBUTTONDBLCLK, WM_LBUTTONUP, WM_RBUTTONUP, WM_TRAYICON,
};
use rexpaper::platform::windows::{
    find_workerw, is_foreground_fullscreen, live_wallpaper_args, mpv_candidates,
    strip_verbatim_prefix, taskkill_all_players_args, taskkill_args, ForegroundWindow, LiveWallpaperEngine, MonitorAction,
    TopWindow,
};

#[test]
fn engine_starts_stopped_and_records_launches() {
    let mut e = LiveWallpaperEngine::new();
    assert!(!e.is_live_wallpaper_active());
    assert_eq!(e.stop_live_wallpaper(), None);
    e.record_launch(4242, "C:\\v\\a.mp4".to_string());
    assert!(e.is_live_wallpaper_active());
    assert_eq!(e.current_live_path(), Some("C:\\v\\a.mp4".to_string()));
    assert!(!e.resume_after_fullscreen());
    assert_eq!(e.stop_live_wallpaper(), Some(4242));
    assert!(!e.is_live_wallpaper_active());
    assert_eq!(e.current_live_path(), None);
    assert!(e.resume_after_fullscreen());
}

#[test]
fn full_screen_pauses_once_and_resumes_the_same_video() {
    let mut e = LiveWallpaperEngine::new();
    e.record_launch(7, "v.mp4".to_string());
    match e.monitor_check(true, true) {
        MonitorAction::EndProcess(Some(7)) => {}
        _ => panic!("expected the process to end"),
    }
    assert!(!e.is_live_wallpaper_active());
    match e.monitor_check(true, true) {
        MonitorAction::Nothing => {}
        _ => panic!("paused only once"),
    }
    match e.monitor_check(true, false) {
        MonitorAction::Relaunch(p) => assert_eq!(p, "v.mp4"),
        _ => panic!("expected a relaunch"),
    }
    match e.monitor_check(true, false) {
        MonitorAction::Nothing => {}
        _ => panic!("resumed only once"),
    }
}

#[test]
fn monitor_disabled_or_no_wallpaper_does_nothing() {
    let mut e = LiveWallpaperEngine::new();
    e.record_launch(7, "v.mp4".to_string());
    assert!(matches!(e.monitor_check(false, true), MonitorAction::Nothing));
    assert!(e.is_live_wallpaper_active());
    let mut idle = LiveWallpaperEngine::new();
    assert!(matches!(idle.monitor_check(true, true), MonitorAction::Nothing));
    assert!(matches!(idle.monitor_check(true, false), MonitorAction::Nothing));
}

#[test]
fn a_stopped_wallpaper_is_never_relaunched() {
    let mut e = LiveWallpaperEngine::new();
    e.record_launch(3, "v.mp4".to_string());
    assert!(matches!(e.monitor_check(true, true), MonitorAction::EndProcess(Some(3))));
    assert_eq!(e.stop_live_wallpaper(), None);
    assert!(matches!(e.monitor_check(true, false), MonitorAction::Nothing));
    assert!(matches!(e.monitor_check(true, true), MonitorAction::Nothing));
}

#[test]
fn pausing_an_inactive_wallpaper_does_nothing() {
    let mut e = LiveWallpaperEngine::new();
    assert_eq!(e.pause_for_fullscreen(), None);
    e.record_launch(9, "x".to_string());
    assert_eq!(e.pause_for_fullscreen(), Some(9));
    assert_eq!(e.pause_for_fullscreen(), None);
    assert_eq!(e.current_live_path(), Some("x".to_string()));
}

fn game_window() -> ForegroundWindow {
    ForegroundWindow {
        present: true,
        visible: true,
        minimized: false,
        process_id: 500,
        class_name: "UnityWndClass".to_string(),
        rect: Some((0, 0, 1920, 1080)),
        style: 0x1000_0000,
    }
}

#[test]
fn full_screen_detection() {
    assert!(is_foreground_fullscreen(&game_window(), 100, 1920, 1080));
    let mut w = game_window();
    w.style = 0x00C0_0000 | 0x1000_0000;
    assert!(!is_foreground_fullscreen(&w, 100, 1920, 1080));
    let mut w = game_window();
    w.rect = Some((0, 0, 1919, 1080));
    assert!(!is_foreground_fullscreen(&w, 100, 1920, 1080));
    let mut w = game_window();
    w.class_name = "WorkerW".to_string();
    assert!(!is_foreground_fullscreen(&w, 100, 1920, 1080));
    assert!(!is_foreground_fullscreen(&game_window(), 500, 1920, 1080));
    let mut w = game_window();
    w.process_id = 0;
    assert!(!is_foreground_fullscreen(&w, 100, 1920, 1080));
    let mut w = game_window();
    w.minimized = true;
    assert!(!is_foreground_fullscreen(&w, 100, 1920, 1080));
    let mut w = game_window();
    w.rect = None;
    assert!(!is_foreground_fullscreen(&w, 100, 1920, 1080));
    let mut w = game_window();
    w.rect = Some((-8, -8, 1928, 1088));
    assert!(is_foreground_fullscreen(&w, 100, 1920, 1080));
}

fn win(handle: usize, class: &str, icons: bool, after: usize) -> TopWindow {
    TopWindow { handle, class_name: class.to_string(), hosts_desktop_icons: icons, worker_after: after }
}

#[test]
fn wallpaper_window_choice() {
    // The WorkerW just after the icons' host.
    let ws = vec![win(1, "Foo", false, 0), win(2, "Progman", true, 30), win(30, "WorkerW", false, 0)];
    assert_eq!(find_workerw(&ws, 2, 99), Some(30));
    // Icons seen without a WorkerW directly after: the next WorkerW met.
    let ws = vec![win(5, "WorkerW", false, 0), win(2, "Progman", true, 0), win(40, "WorkerW", false, 0)];
    assert_eq!(find_workerw(&ws, 2, 99), Some(40));
    // No icons host: any WorkerW without icons.
    let ws = vec![win(1, "Foo", false, 0), win(6, "WorkerW", false, 0)];
    assert_eq!(find_workerw(&ws, 2, 99), Some(6));
    // Nothing: the program manager, then the desktop.
    assert_eq!(find_workerw(&vec![], 2, 99), Some(2));
    assert_eq!(find_workerw(&vec![], 0, 99), Some(99));
    assert_eq!(find_workerw(&vec![], 0, 0), None);
}

#[test]
fn background_player_command_line() {
    let args = live_wallpaper_args(123456, true, "C:\\app\\mpv_live.log", "\\\\?\\C:\\v\\a b.mp4");
    assert_eq!(args.len(), 22);
    assert_eq!(args[0], "--player-operation-mode=cplayer");
    assert_eq!(args[1], "--wid=123456");
    assert_eq!(args[4], "--mute=yes");
    assert_eq!(args[13], "--log-file=C:\\app\\mpv_live.log");
    assert_eq!(args[21], "C:\\v\\a b.mp4");
    let args = live_wallpaper_args(0, false, "l", "C:\\v.mp4");
    assert_eq!(args[1], "--wid=0");
    assert_eq!(args[4], "--mute=no");
    assert_eq!(args[21], "C:\\v.mp4");
    assert_eq!(strip_verbatim_prefix("\\\\?\\"), "");
    assert_eq!(strip_verbatim_prefix("\\\\?"), "\\\\?");
}

#[test]
fn taskkill_command_line() {
    assert_eq!(taskkill_args(77, true), vec!["/PID", "77", "/F", "/T"]);
    assert_eq!(taskkill_args(4294967295, false), vec!["/PID", "4294967295", "/F"]);
    assert_eq!(taskkill_all_players_args(), vec!["/IM", "mpv.exe", "/F", "/T"]);
}

#[test]
fn bundled_player_locations() {
    let c = mpv_candidates("C:\\app", '\\');
    assert_eq!(c, vec!["C:\\app\\mpv.exe", "C:\\app\\mpv\\mpv.exe", "mpv\\mpv.exe"]);
    let c = mpv_candidates("/opt/app/", '/');
    assert_eq!(c, vec!["/opt/app/mpv.exe", "/opt/app/mpv/mpv.exe", "mpv/mpv.exe"]);
}

#[test]
fn tray_clicks_and_menu() {
    assert_eq!(WM_TRAYICON, 0x0400 + 101);
    assert_eq!(tray_click(WM_LBUTTONUP), TrayClick::Act(TrayAction::Open));
    assert_eq!(tray_click(WM_LBUTTONDBLCLK), TrayClick::Act(TrayAction::Open));
    assert_eq!(tray_click(WM_RBUTTONUP), TrayClick::ShowMenu);
    assert_eq!(tray_click(0x0200), TrayClick::Ignore);
    assert_eq!(menu_action(1001), Some(TrayAction::Open));
    assert_eq!(menu_action(1002), Some(TrayAction::StaticPage));
    assert_eq!(menu_action(1003), Some(TrayAction::LivePage));
    assert_eq!(menu_action(1004), Some(TrayAction::SettingsPage));
    assert_eq!(menu_action(ID_TRAY_QUIT), Some(TrayAction::Quit));
    assert_eq!(menu_action(0), None);
    let menu = tray_menu();
    assert_eq!(menu.len(), 7);
    match &menu[0] {
        MenuEntry::Item(id, label) => {
            assert_eq!(*id, 1001);
            assert_eq!(label, "Open RexPaper");
        }
        MenuEntry::Separator => panic!("expected an item"),
    }
    assert!(matches!(menu[1], MenuEntry::Separator));
    assert!(matches!(menu[5], MenuEntry::Separator));
    assert_eq!(tray_tooltip(), "RexPaper - Wallpaper Manager");
}
