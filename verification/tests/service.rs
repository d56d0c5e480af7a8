//! The control channel.

use signage_desktop::app::{media_released, media_switched, AppState};
use signage_desktop::cli::parse;
use signage_desktop::config::ConfigStore;
use signage_desktop::download::Failure;
use signage_desktop::fetch::Action;
use signage_desktop::media_server::endpoint;
use signage_desktop::protocol::{PlayerMessage, ServerMessage};
use signage_desktop::service::{
    apply_cli_provisioning, apply_remote_configure, assigned_file, backoff_ms, handle_message,
    heartbeat_message, hello, on_assign, send_logs, start, Assigned, Assignment, Command,
    ControlHandle, DownloadRun, LinkAction, LinkEvent, RunAction, RunEvent, Session, SessionAction,
    SessionEvent, Supervisor,
};
use signage_desktop::store::MediaStore;

#[test]
fn the_backoff_ladder_matches_the_android_client() {
    // attempt 0 is "a session that did open and then ended": retry promptly.
    let ladder: Vec<u64> = (0..10).map(backoff_ms).collect();
    assert_eq!(
        ladder,
        vec![1_000, 1_000, 2_000, 4_000, 8_000, 16_000, 32_000, 60_000, 60_000, 60_000]
    );
    assert_eq!(backoff_ms(u32::MAX), 60_000);
}

fn state() -> AppState {
    let mut state = AppState::new(
        MediaStore::new(),
        endpoint(8080, "t").server,
        ConfigStore::load(None),
        0,
    );
    state.config.config.device_id = "pc-1".into();
    state
        .config
        .set_provisioning(Some("10.0.0.4"), Some("tv"), Some("710"));
    state
}

fn connected() -> ControlHandle {
    let mut control = start();
    control.connected = true;
    control
}

fn sent(control: &mut ControlHandle) -> Vec<String> {
    let mut out = vec![];
    while let Some(message) = control.next_outbound() {
        out.push(message.to_json());
    }
    out
}

fn sends(action: SessionAction) -> String {
    match action {
        SessionAction::Send(message) => message.to_json(),
        other => panic!("expected a message, not {other:?}"),
    }
}

const HELLO: &str = r#"{"type":"hello","deviceId":"pc-1","storeId":"710","deviceName":"tv","appVersion":"desktop-0.1.2"}"#;

#[test]
fn nothing_is_buffered_while_the_socket_is_down() {
    let mut control = start();
    assert!(!control.is_connected());
    assert!(!control.send(PlayerMessage::TimeRequest { client_send_ms: 1 }));
    assert!(control.next_outbound().is_none());

    control.connected = true;
    assert!(control.is_connected());
    assert!(control.send(PlayerMessage::TimeRequest { client_send_ms: 2 }));
    assert!(control.send(PlayerMessage::TimeRequest { client_send_ms: 3 }));
    assert_eq!(
        sent(&mut control),
        [
            r#"{"type":"timeRequest","clientSendMs":2}"#,
            r#"{"type":"timeRequest","clientSendMs":3}"#
        ]
    );
}

fn dial(supervisor: &mut Supervisor, control: &mut ControlHandle) {
    let url = Some("ws://10.0.0.4/ws".to_string());
    match supervisor.step(control, LinkEvent::Configured(url)) {
        LinkAction::Dial(url) => assert_eq!(url, "ws://10.0.0.4/ws"),
        other => panic!("expected to dial, not {other:?}"),
    }
}

fn rest(action: LinkAction) -> u64 {
    match action {
        LinkAction::Rest(wait) => wait,
        other => panic!("expected a pause, not {other:?}"),
    }
}

#[test]
fn failures_climb_the_ladder_and_a_session_resets_it() {
    let mut control = start();
    let (mut supervisor, first) = Supervisor::new();
    assert!(matches!(first, LinkAction::ReadConfig));
    for wait in [1_000, 2_000, 4_000, 8_000] {
        dial(&mut supervisor, &mut control);
        assert!(supervisor.takes(&LinkEvent::Refused));
        assert_eq!(rest(supervisor.step(&mut control, LinkEvent::Refused)), wait);
        assert!(!control.is_connected());
        let next = supervisor.step(&mut control, LinkEvent::Rested);
        assert!(matches!(next, LinkAction::ReadConfig));
    }
    dial(&mut supervisor, &mut control);
    let open = supervisor.step(&mut control, LinkEvent::Connected);
    assert!(matches!(open, LinkAction::RunSession));
    assert!(control.is_connected());
    assert!(!supervisor.takes(&LinkEvent::Rested));
    assert_eq!(rest(supervisor.step(&mut control, LinkEvent::Closed)), 1_000);
    assert!(!control.is_connected());
}

#[test]
fn reprovisioning_interrupts_the_backoff() {
    let mut control = start();
    let (mut supervisor, _) = Supervisor::new();
    for _ in 0..3 {
        dial(&mut supervisor, &mut control);
        supervisor.step(&mut control, LinkEvent::Refused);
        supervisor.step(&mut control, LinkEvent::Rested);
    }
    dial(&mut supervisor, &mut control);
    assert_eq!(rest(supervisor.step(&mut control, LinkEvent::Refused)), 8_000);
    let next = supervisor.step(&mut control, LinkEvent::Changed);
    assert!(matches!(next, LinkAction::ReadConfig));
    dial(&mut supervisor, &mut control);
    assert_eq!(rest(supervisor.step(&mut control, LinkEvent::Refused)), 1_000);
    let end = supervisor.step(&mut control, LinkEvent::Orphaned);
    assert!(matches!(end, LinkAction::Stop));
}

#[test]
fn without_a_server_the_channel_is_idle() {
    let mut control = start();
    let (mut supervisor, _) = Supervisor::new();
    let idle = supervisor.step(&mut control, LinkEvent::Configured(None));
    assert!(matches!(idle, LinkAction::AwaitChange));
    let next = supervisor.step(&mut control, LinkEvent::Changed);
    assert!(matches!(next, LinkAction::ReadConfig));
    supervisor.step(&mut control, LinkEvent::Configured(None));
    let end = supervisor.step(&mut control, LinkEvent::Orphaned);
    assert!(matches!(end, LinkAction::Stop));
}

fn session(state: &AppState, control: &ControlHandle, now: u128) -> Session {
    let (opening, _) = Session::open("ws://10.0.0.4/ws".into(), state, control);
    opening.announced(now)
}

#[test]
fn a_session_announces_the_screen_once() {
    let state = state();
    let mut control = connected();
    control.config_changed();
    let (opening, hello) = Session::open("ws://10.0.0.4/ws".into(), &state, &control);
    assert_eq!(hello.to_json(), HELLO);
    let session = opening.announced(0);
    assert!(!session.has_news(&control), "the hello covers what came before");
}

#[test]
fn a_change_is_announced_or_ends_the_session() {
    let mut state = state();
    let mut control = connected();
    let mut session = session(&state, &control, 0);

    assert!(apply_remote_configure(&mut state, &mut control, Some("704"), None));
    assert!(session.has_news(&control));
    let again = session.step(SessionEvent::Changed, &state, &control, 1);
    assert_eq!(sends(again), HELLO.replace("710", "704"));
    assert!(!session.has_news(&control));

    // The same again is no change.
    assert!(!apply_remote_configure(&mut state, &mut control, Some("704"), None));
    assert!(!session.has_news(&control));

    let provisioning = parse(&["--server", "10.0.0.5"]);
    assert!(apply_cli_provisioning(&mut state, &mut control, &provisioning));
    let end = session.step(SessionEvent::Changed, &state, &control, 2);
    assert!(matches!(end, SessionAction::End));
    let config = state.config.snapshot();
    assert_eq!(config.device_name.as_deref(), Some("tv"));
    assert_eq!(config.store_id.as_deref(), Some("704"));
    assert_eq!(config.server.as_deref(), Some("10.0.0.5"));
}

#[test]
fn a_change_while_the_hello_goes_out_is_news() {
    let mut state = state();
    let mut control = connected();
    let (opening, _) = Session::open("ws://10.0.0.4/ws".into(), &state, &control);
    assert!(apply_remote_configure(&mut state, &mut control, Some("704"), None));
    assert!(opening.announced(5).has_news(&control));
}

#[test]
fn silence_ends_a_session() {
    let state = state();
    let control = connected();
    let second: u128 = 1_000_000_000;
    let mut session = session(&state, &control, second);
    let ping = |session: &mut Session, now| session.step(SessionEvent::PingDue, &state, &control, now);
    assert!(matches!(ping(&mut session, 61 * second), SessionAction::Ping));
    assert!(matches!(ping(&mut session, 61 * second + 1), SessionAction::End));
    let wait = session.step(SessionEvent::Alive, &state, &control, 61 * second);
    assert!(matches!(wait, SessionAction::Wait));
    assert!(matches!(ping(&mut session, 121 * second), SessionAction::Ping));
    // A raw frame is no sign of life, and a frame nobody understands is one.
    session.step(SessionEvent::Frame, &state, &control, 121 * second);
    assert!(matches!(ping(&mut session, 122 * second), SessionAction::End));
    let wait = session.step(SessionEvent::Text(None), &state, &control, 122 * second);
    assert!(matches!(wait, SessionAction::Wait));
    assert!(matches!(ping(&mut session, 182 * second), SessionAction::Ping));
}

#[test]
fn a_session_carries_messages_both_ways() {
    let state = state();
    let control = connected();
    let mut session = session(&state, &control, 0);
    let mut step = |event| session.step(event, &state, &control, 1_500_000);
    let text = SessionEvent::Text(Some(ServerMessage::Reload));
    assert!(matches!(
        step(text),
        SessionAction::Handle(ServerMessage::Reload)
    ));
    let out = PlayerMessage::TimeRequest { client_send_ms: 4 };
    assert_eq!(
        sends(step(SessionEvent::Outbound(out))),
        r#"{"type":"timeRequest","clientSendMs":4}"#
    );
    assert_eq!(
        sends(step(SessionEvent::HeartbeatDue { free_bytes: 77 })),
        r#"{"type":"heartbeat","deviceId":"pc-1","storeId":"710","playing":false,"positionMs":0,"freeBytes":77,"appVersion":"desktop-0.1.2","uptimeMs":1}"#
    );
    for event in [
        SessionEvent::Gone,
        SessionEvent::Orphaned,
        SessionEvent::SendFailed,
    ] {
        assert!(matches!(step(event), SessionAction::End));
    }
}

#[test]
fn hello_and_heartbeat_name_the_video_on_screen() {
    let mut state = state();
    media_switched(&mut state, "v1".into(), &vec![]);
    assert!(hello(&state)
        .to_json()
        .ends_with(r#","currentVideoId":"v1"}"#));
    let beat = heartbeat_message(&state, 1, 2_000_000).to_json();
    assert!(beat.contains(r#""currentVideoId":"v1","#));
    assert!(beat.ends_with(r#""uptimeMs":2}"#));
}

#[test]
fn messages_become_commands() {
    let state = state();
    let command = |message| handle_message(&state, message);
    assert!(matches!(command(ServerMessage::Reload), Command::Reload));
    assert!(matches!(command(ServerMessage::Reboot), Command::Restart));
    assert!(matches!(command(ServerMessage::GetLogs), Command::SendLogs));
    assert!(matches!(command(ServerMessage::Unknown), Command::Nothing));
    let time = ServerMessage::TimeResponse {
        client_send_ms: 1,
        server_ms: 2,
    };
    assert!(matches!(command(time), Command::Nothing));
    match command(ServerMessage::Identify) {
        Command::Identify(name) => assert_eq!(name, "tv"),
        other => panic!("{other:?}"),
    }
    let configure = ServerMessage::Configure {
        store_id: Some("704".into()),
        device_name: None,
    };
    match command(configure) {
        Command::Configure {
            store_id,
            device_name,
        } => {
            assert_eq!(store_id.as_deref(), Some("704"));
            assert_eq!(device_name, None);
        }
        other => panic!("{other:?}"),
    }
    let assign = ServerMessage::Assign {
        video_id: "v1".into(),
        url: "u".into(),
        sha256: "s".into(),
        size_bytes: 9,
        group_id: Some("g".into()),
        start_epoch_ms: Some(-1),
    };
    match command(assign) {
        Command::Assign(a) => {
            assert_eq!((a.video_id.as_str(), a.url.as_str()), ("v1", "u"));
            assert_eq!((a.sha256.as_str(), a.size_bytes), ("s", 9));
            assert_eq!(a.group_id.as_deref(), Some("g"));
            assert_eq!(a.start_epoch_ms, Some(-1));
        }
        other => panic!("{other:?}"),
    }
}

#[test]
fn the_log_is_sent_when_asked_for() {
    let state = state();
    let mut control = connected();
    assert!(send_logs(&state, &mut control, "a\n".into(), true));
    assert_eq!(
        sent(&mut control),
        [r#"{"type":"logs","deviceId":"pc-1","text":"a\n","truncated":true}"#]
    );
    control.connected = false;
    assert!(!send_logs(&state, &mut control, "a\n".into(), true));
    assert!(sent(&mut control).is_empty());
}

fn assignment(video_id: &str) -> Assignment {
    Assignment {
        video_id: video_id.into(),
        url: "http://h/v.mp4".into(),
        sha256: "ab".into(),
        size_bytes: 10,
        group_id: Some("g".into()),
        start_epoch_ms: Some(42),
    }
}

#[test]
fn an_unusable_id_is_refused_and_reported() {
    let state = state();
    let mut control = connected();
    let bad = "../\"x\n";
    assert!(assigned_file(&state, &assignment(bad)).is_none());
    let assigned = on_assign(&state, &mut control, assignment(bad), false);
    assert!(matches!(assigned, Assigned::Refused));
    assert!(!control.downloading);
    let message = control.next_outbound().unwrap();
    match message {
        PlayerMessage::Error { code, detail } => {
            assert_eq!(code, "HTTP_ERROR");
            assert_eq!(detail, "unusable videoId \"../\\\"x\\n\"");
        }
        other => panic!("{other:?}"),
    }
}

#[test]
fn what_is_playing_is_not_downloaded_again() {
    let mut state = state();
    let mut control = connected();
    assert!(assigned_file(&state, &assignment("v1")).is_none());
    media_switched(&mut state, "v1".into(), &vec![]);
    assert_eq!(
        assigned_file(&state, &assignment("v1")),
        Some(state.store.media_file("v1"))
    );
    assert!(assigned_file(&state, &assignment("v2")).is_none());
    let assigned = on_assign(&state, &mut control, assignment("v1"), true);
    assert!(matches!(assigned, Assigned::Playing));
    assert!(!control.downloading);
    // Its file is gone: fetch it again.
    let assigned = on_assign(&state, &mut control, assignment("v1"), false);
    assert!(matches!(assigned, Assigned::Start(_)));
}

fn begin(state: &AppState, control: &mut ControlHandle, id: &str) -> DownloadRun {
    match on_assign(state, control, assignment(id), false) {
        Assigned::Start(run) => run,
        _ => panic!("expected a download"),
    }
}

fn failure(code: &'static str, resumable: bool) -> RunEvent {
    RunEvent::Ended(Err(Failure::new(code, "why".into(), resumable)))
}

#[test]
fn one_download_at_a_time() {
    let mut state = state();
    let mut control = connected();
    let mut run = begin(&state, &mut control, "v1");
    assert!(control.downloading);
    let second = on_assign(&state, &mut control, assignment("v2"), false);
    assert!(matches!(second, Assigned::Busy));
    assert!(sent(&mut control).is_empty());
    let stop = run.step(&mut state, &mut control, RunEvent::Unable);
    assert!(matches!(stop, RunAction::Stop));
    assert!(!control.downloading);
    let third = on_assign(&state, &mut control, assignment("v2"), false);
    assert!(matches!(third, Assigned::Start(_)));
}

#[test]
fn a_video_in_place_is_remembered_and_played() {
    let mut state = state();
    let mut control = connected();
    let mut run = begin(&state, &mut control, "v1");
    match run.step(&mut state, &mut control, RunEvent::Ready) {
        RunAction::Attempt(download, Action::ListPending) => {
            assert_eq!(download.request.video_id, "v1");
            assert_eq!(download.request.url, "http://h/v.mp4");
            assert_eq!(download.active, None);
        }
        _ => panic!("expected an attempt"),
    }
    for percent in [0, 0, 5, 10, 11, 19, 20, 20, 100] {
        run.progress(&mut control, percent);
    }
    let percents: Vec<String> = sent(&mut control);
    assert_eq!(
        percents,
        [0, 10, 20, 100].map(|p| format!(
            r#"{{"type":"downloadProgress","videoId":"v1","percent":{p}}}"#
        ))
    );
    let file = state.store.media_file("v1");
    match run.step(&mut state, &mut control, RunEvent::Ended(Ok(file))) {
        RunAction::Play(file) => assert_eq!(file, state.store.media_file("v1")),
        _ => panic!("expected to play"),
    }
    assert!(control.downloading, "the screen has not been told yet");
    assert!(run.takes(&RunEvent::Played));
    let end = run.step(&mut state, &mut control, RunEvent::Played);
    assert!(matches!(end, RunAction::Finish));
    assert!(!control.downloading);
    let config = state.config.snapshot();
    assert_eq!(config.current_video_id.as_deref(), Some("v1"));
    assert_eq!(config.group_id.as_deref(), Some("g"));
    assert_eq!(config.sync_origin_ms, Some(42));
}

#[test]
fn resumable_failures_are_retried_five_times() {
    let mut state = state();
    let before = state.config.snapshot();
    let mut control = connected();
    let mut run = begin(&state, &mut control, "v1");
    let first = run.step(&mut state, &mut control, RunEvent::Ready);
    assert!(matches!(first, RunAction::Attempt(..)));
    for wait in [1_000, 2_000, 4_000, 8_000] {
        match run.step(&mut state, &mut control, failure("NETWORK_ERROR", true)) {
            RunAction::Rest { rest_ms } => assert_eq!(rest_ms, wait),
            _ => panic!("expected a pause"),
        }
        assert!(control.downloading);
        assert!(run.takes(&RunEvent::Rested));
        let again = run.step(&mut state, &mut control, RunEvent::Rested);
        assert!(matches!(again, RunAction::Attempt(..)));
    }
    let stop = run.step(&mut state, &mut control, failure("NETWORK_ERROR", true));
    assert!(matches!(stop, RunAction::Stop));
    assert!(!control.downloading);
    assert_eq!(
        sent(&mut control),
        vec![r#"{"type":"error","code":"NETWORK_ERROR","detail":"why"}"#; 5]
    );
    assert_eq!(state.config.snapshot(), before);
    assert!(!run.takes(&RunEvent::Rested));
}

#[test]
fn other_failures_are_final() {
    let mut state = state();
    let mut control = connected();
    let mut run = begin(&state, &mut control, "v1");
    run.step(&mut state, &mut control, RunEvent::Ready);
    let stop = run.step(&mut state, &mut control, failure("HASH_MISMATCH", false));
    assert!(matches!(stop, RunAction::Stop));
    assert_eq!(sent(&mut control).len(), 1);
}

#[test]
fn the_screen_releases_the_file_to_be_replaced() {
    let mut state = state();
    media_switched(&mut state, "v1".into(), &vec![]);
    let mut control = connected();
    let mut run = begin(&state, &mut control, "v1");
    let ask = run.step(&mut state, &mut control, RunEvent::Ready);
    assert!(matches!(ask, RunAction::Release { rest_ms: 100 }));
    let wait = run.step(&mut state, &mut control, RunEvent::Rested);
    assert!(matches!(wait, RunAction::Rest { rest_ms: 100 }));
    media_released(&mut state);
    match run.step(&mut state, &mut control, RunEvent::Rested) {
        RunAction::Attempt(download, _) => assert_eq!(download.active.as_deref(), Some("v1")),
        _ => panic!("expected an attempt"),
    }
}

#[test]
fn a_screen_that_does_not_answer_is_waited_for_three_seconds() {
    let mut state = state();
    media_switched(&mut state, "v1".into(), &vec![]);
    let mut control = connected();
    let mut run = begin(&state, &mut control, "v1");
    run.step(&mut state, &mut control, RunEvent::Ready);
    for _ in 0..29 {
        let wait = run.step(&mut state, &mut control, RunEvent::Rested);
        assert!(matches!(wait, RunAction::Rest { rest_ms: 100 }));
    }
    let go = run.step(&mut state, &mut control, RunEvent::Rested);
    assert!(matches!(go, RunAction::Attempt(..)));
}
