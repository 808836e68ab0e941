use rexpaper::live_wallpaper::{
    scan_and_load_live, ControlStep, ControllerError, LiveWallpaperController, PlayerCommand,
};
use rexpaper::models::AppState;

fn ok() -> Result<(), String> {
    Ok(())
}

fn new_controller() -> LiveWallpaperController {
    match LiveWallpaperController::new(Ok(())) {
        Ok(c) => c,
        Err(_) => panic!("controller not created"),
    }
}

#[test]
fn creation_fails_with_the_players_error() {
    match LiveWallpaperController::new(Err("no libmpv".to_string())) {
        Err(ControllerError::Player(e)) => assert_eq!(e, "no libmpv"),
        _ => panic!("expected a player error"),
    }
}

#[test]
fn a_new_controller_plays_nothing() {
    let c = new_controller();
    assert!(!c.is_playing());
    assert!(c.current_path().is_none());
    assert!(c.is_idle());
}

#[test]
fn play_loads_then_starts_then_records_the_path() {
    let mut c = new_controller();
    match c.play("/v/a.mp4".to_string()) {
        ControlStep::Issue(PlayerCommand::LoadFile(p)) => assert_eq!(p, "/v/a.mp4"),
        _ => panic!("expected a load"),
    }
    assert!(!c.is_idle());
    assert!(!c.is_playing());
    match c.resume(ok()) {
        ControlStep::Issue(PlayerCommand::Play) => {}
        _ => panic!("expected play"),
    }
    match c.resume(ok()) {
        ControlStep::Done(Ok(())) => {}
        _ => panic!("expected success"),
    }
    assert!(c.is_playing());
    assert_eq!(c.current_path(), Some("/v/a.mp4".to_string()));
    assert!(c.is_idle());
}

#[test]
fn a_failed_load_keeps_the_previous_video() {
    let mut c = new_controller();
    c.play("/v/a.mp4".to_string());
    c.resume(ok());
    c.resume(ok());
    c.play("/v/b.mp4".to_string());
    match c.resume(Err("bad file".to_string())) {
        ControlStep::Done(Err(ControllerError::Player(e))) => assert_eq!(e, "bad file"),
        _ => panic!("expected the failure"),
    }
    assert_eq!(c.current_path(), Some("/v/a.mp4".to_string()));
    assert!(c.is_idle());
}

#[test]
fn stop_forgets_the_video_only_when_the_player_stops() {
    let mut c = new_controller();
    c.play("/v/a.mp4".to_string());
    c.resume(ok());
    c.resume(ok());
    match c.stop() {
        ControlStep::Issue(PlayerCommand::Stop) => {}
        _ => panic!("expected stop"),
    }
    match c.resume(Err("busy".to_string())) {
        ControlStep::Done(Err(_)) => {}
        _ => panic!("expected failure"),
    }
    assert!(c.is_playing());
    c.stop();
    c.resume(ok());
    assert!(!c.is_playing());
}

#[test]
fn pause_and_mute_go_to_the_player() {
    let mut c = new_controller();
    c.play("/v/k.mp4".to_string());
    c.resume(ok());
    c.resume(ok());
    match c.pause() {
        ControlStep::Issue(PlayerCommand::Pause) => {}
        _ => panic!("expected pause"),
    }
    match c.resume(ok()) {
        ControlStep::Done(Ok(())) => {}
        _ => panic!("expected success"),
    }
    match c.set_mute(false) {
        ControlStep::Issue(PlayerCommand::SetMute(false)) => {}
        _ => panic!("expected unmute"),
    }
    match c.resume(Err("x".to_string())) {
        ControlStep::Done(Err(ControllerError::Player(_))) => {}
        _ => panic!("expected failure"),
    }
    assert!(c.is_idle());
    assert_eq!(c.current_path(), Some("/v/k.mp4".to_string()));
}

#[test]
fn scanning_live_wallpapers_through_the_live_module() {
    let mut st = AppState::new();
    scan_and_load_live("/v", &vec!["/v/A/x.MP4".to_string(), "/v/y.png".to_string()], &mut st);
    assert_eq!(st.live_wallpapers.len(), 1);
    assert_eq!(st.live_categories, vec!["A"]);
}

#[test]
fn frames_are_not_rendered() {
    let c = new_controller();
    match c.render_frame(640, 360) {
        Err(ControllerError::Player(e)) => assert_eq!(e, "Preview not implemented in this version"),
        _ => panic!("expected an error"),
    }
}
