//! Shared state and the webview's commands.

use signage_desktop::app::{
    bootstrap, media_released, media_switched, report_playback, ui_log, AppState, PlaybackSnapshot,
};
use signage_desktop::config::ConfigStore;
use signage_desktop::logs::Level;
use signage_desktop::media_server::endpoint;
use signage_desktop::store::{DirEntry, MediaStore};

fn state() -> AppState {
    AppState::new(
        MediaStore::new(),
        endpoint(8080, "t").server,
        ConfigStore::load(None),
        5_000_000,
    )
}

fn entry(name: &str, modified: i128) -> DirEntry {
    DirEntry {
        name: name.into(),
        is_file: true,
        modified: Some(modified),
    }
}

#[test]
fn a_screen_starts_with_the_newest_video() {
    let entries = vec![entry("new.mp4", 9_000_000), entry("old.mp4", 1)];
    let start = bootstrap(&state(), &entries, Some(9_000_000), "/data/media");
    let media = start.media.unwrap();
    assert_eq!(media.video_id, "new");
    assert_eq!(media.url, "http://127.0.0.1:8080/t/new.mp4?v=9");
    assert!(start.notice.is_none());
}

#[test]
fn a_screen_without_a_video_says_so() {
    let start = bootstrap(&state(), &vec![], None, "/data/media");
    assert!(start.media.is_none());
    let notice = start.notice.unwrap();
    assert_eq!(notice.title, "Sem campanha");
    assert_eq!(
        notice.detail,
        "Nenhum vídeo disponível. Coloque um arquivo .mp4 em /data/media ou provisione a tela com um servidor."
    );
}

#[test]
fn switching_names_what_can_be_deleted() {
    let mut state = state();
    assert_eq!(state.active_video_id(), None);
    let entries = vec![entry("b.mp4", 2), entry("a.mp4", 1), entry("on.mp4", 3)];
    let outdated = media_switched(&mut state, "on".into(), &entries);
    assert_eq!(state.active_video_id().as_deref(), Some("on"));
    assert_eq!(
        outdated,
        [state.store.media_file("a"), state.store.media_file("b")]
    );
}

#[test]
fn releases_are_counted_and_playback_is_remembered() {
    let mut state = state();
    assert_eq!(state.released_seq(), 0);
    media_released(&mut state);
    media_released(&mut state);
    assert_eq!(state.released_seq(), 2);
    assert_eq!(state.playback(), PlaybackSnapshot::default());
    report_playback(&mut state, true, -3);
    assert_eq!(
        state.playback(),
        PlaybackSnapshot {
            playing: true,
            position_ms: -3
        }
    );
}

#[test]
fn uptime_is_in_whole_milliseconds() {
    let state = state();
    assert_eq!(state.uptime_ms(5_000_000), 0);
    assert_eq!(state.uptime_ms(6_999_999), 1);
    assert_eq!(state.uptime_ms(0), 0);
    let wrapped = (u64::MAX as u128 + 8) * 1_000_000 + 5_000_000;
    assert_eq!(state.uptime_ms(wrapped), 7);
}

#[test]
fn the_screen_is_told_where_to_find_its_file() {
    let state = state();
    let media = state
        .play(&state.store.media_file("v1"), Some(7_000_000))
        .unwrap();
    assert_eq!(media.video_id, "v1");
    assert_eq!(media.url, "http://127.0.0.1:8080/t/v1.mp4?v=7");
    let mut nowhere = state.store.media_file("v1");
    nowhere.name = "..".into();
    assert!(state.play(&nowhere, None).is_none());
}

#[test]
fn lines_of_the_webview_are_marked() {
    assert_eq!(ui_log("e", "x"), (Level::Error, "[ui] x".to_string()));
    assert_eq!(ui_log("w", "x").0, Level::Warn);
    assert_eq!(ui_log("d", "x").0, Level::Debug);
    assert_eq!(ui_log("i", "x").0, Level::Info);
    assert_eq!(ui_log("E", "").0, Level::Info);
}
