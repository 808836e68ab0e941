use rexpaper::settings::{
    is_autostart, live_log_file, settings_file, startup_command, startup_registry_change,
    StartupRegistryChange,
};
use rexpaper::Settings;

#[test]
fn first_start_defaults() {
    let s = Settings::default();
    assert!(s.wallpaper_dir.is_none());
    assert!(s.live_wallpaper_dir.is_none());
    assert!(!s.run_on_startup);
    assert!(s.pause_on_fullscreen);
    assert!(s.mute_live_wallpapers);
}

#[test]
fn setters_change_one_field() {
    let mut s = Settings::default();
    s.set_wallpaper_dir("C:\\Pictures".to_string());
    s.set_live_wallpaper_dir("C:\\Videos".to_string());
    s.set_run_on_startup(true);
    s.set_pause_on_fullscreen(false);
    s.set_mute_live_wallpapers(false);
    assert_eq!(s.wallpaper_dir.as_deref(), Some("C:\\Pictures"));
    assert_eq!(s.live_wallpaper_dir.as_deref(), Some("C:\\Videos"));
    assert!(s.run_on_startup);
    assert!(!s.pause_on_fullscreen);
    assert!(!s.mute_live_wallpapers);
    s.set_wallpaper_dir("D:\\Other".to_string());
    assert_eq!(s.wallpaper_dir.as_deref(), Some("D:\\Other"));
    assert_eq!(s.live_wallpaper_dir.as_deref(), Some("C:\\Videos"));
}

#[test]
fn start_up_entry() {
    assert_eq!(startup_command("C:\\Program Files\\RexPaper\\rexpaper.exe"),
        "\"C:\\Program Files\\RexPaper\\rexpaper.exe\" --autostart");
    match startup_registry_change(true, Some("C:\\r.exe".to_string())) {
        StartupRegistryChange::SetValue(c) => assert_eq!(c, "\"C:\\r.exe\" --autostart"),
        _ => panic!("expected a value"),
    }
    assert!(matches!(startup_registry_change(true, None), StartupRegistryChange::Nothing));
    assert!(matches!(startup_registry_change(false, Some("x".to_string())), StartupRegistryChange::DeleteValue));
}

#[test]
fn background_start_arguments() {
    let args = |a: &[&str]| a.iter().map(|s| s.to_string()).collect::<Vec<String>>();
    assert!(is_autostart(&args(&["rexpaper.exe", "--autostart"])));
    assert!(is_autostart(&args(&["rexpaper.exe", "--minimized"])));
    assert!(!is_autostart(&args(&["rexpaper.exe"])));
    assert!(!is_autostart(&args(&["rexpaper.exe", "--autostart=1"])));
}

#[test]
fn file_locations() {
    assert_eq!(settings_file("/cfg", '/'), "/cfg/settings.json");
    assert_eq!(settings_file("C:\\cfg", '\\'), "C:\\cfg\\settings.json");
    assert_eq!(live_log_file("/cfg/", '\\'), "/cfg/mpv_live.log");
}
