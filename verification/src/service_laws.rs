//! What holds of the control channel as a whole.

use vstd::prelude::*;
use vstd::string::*;

use crate::app::AppState;
use crate::cli::Provisioning;
use crate::config::ConfigView;
use crate::digest;
use crate::download::{Failure, TransferView};
use crate::protocol::{PlayerMessage, PlayerMessageView, ServerMessage};
use crate::service;
use crate::service::{
    Assignment, Command, ControlHandle, ControlView, DownloadRun, LinkAction, LinkActionView,
    LinkEvent, Opening, Phase, RunAction, RunActionView, RunEvent, RunPhase, RunView, Session, SessionAction,
    SessionActionView, SessionEvent, Supervisor, CONNECT_TIMEOUT_MS, DOWNLOAD_ATTEMPTS,
    HEARTBEAT_INTERVAL_MS, MAX_BACKOFF_MS, PING_INTERVAL_MS, RELEASE_POLLS, SILENCE_LIMIT,
};
use crate::store;
use crate::store::StorePath;
use crate::text;

verus! {

// --------------------------------------------------------------------- backoff

/// The ladder: 1s, 1s, 2s, 4s, 8s, 16s, 32s, 60s, and 60s from there on.
pub proof fn law_the_backoff_ladder(attempt: nat)
    ensures
        service::backoff(attempt) == (if attempt <= 1 {
            1_000nat
        } else if attempt == 2 {
            2_000
        } else if attempt == 3 {
            4_000
        } else if attempt == 4 {
            8_000
        } else if attempt == 5 {
            16_000
        } else if attempt == 6 {
            32_000
        } else {
            60_000
        }),
    decreases attempt,
{
    if attempt > 1 {
        law_the_backoff_ladder((attempt - 1) as nat);
    }
}

/// Waiting never gets shorter with more failures, and never longer than a minute.
pub proof fn law_the_backoff_never_shrinks(fewer: nat, more: nat)
    requires
        fewer <= more,
    ensures
        service::backoff(fewer) <= service::backoff(more) <= MAX_BACKOFF_MS,
{
    law_the_backoff_ladder(fewer);
    law_the_backoff_ladder(more);
}

// ------------------------------------------------------------------ supervisor

/// A supervisor after so many rounds of dialling in vain: it reads the configuration, dials,
/// fails and rests.
pub open spec fn after_failures(supervisor: Supervisor, url: String, rounds: nat) -> Supervisor
    decreases rounds,
{
    if rounds == 0 {
        supervisor
    } else {
        let before = after_failures(supervisor, url, (rounds - 1) as nat);
        before.stepped(LinkEvent::Configured(Some(url))).0.stepped(LinkEvent::Refused).0.stepped(
            LinkEvent::Rested,
        ).0
    }
}

/// Each failure in a row climbs one rung of the ladder.
pub proof fn law_failures_in_a_row_climb_the_ladder(url: String, rounds: nat)
    requires
        rounds < u32::MAX,
    ensures
        ({
            let fresh = Supervisor { phase: Phase::Reading, attempt: 0 };
            let now = after_failures(fresh, url, rounds);
            let dialling = now.stepped(LinkEvent::Configured(Some(url)));
            &&& now == (Supervisor { phase: Phase::Reading, attempt: rounds as u32 })
            &&& now.spec_takes(LinkEvent::Configured(Some(url)))
            &&& dialling.0.spec_takes(LinkEvent::Refused)
            &&& dialling.1 == LinkActionView::Dial(url@)
            &&& dialling.0.stepped(LinkEvent::Refused).1 == LinkActionView::Rest(
                service::backoff(rounds + 1),
            )
        }),
    decreases rounds,
{
    if rounds > 0 {
        law_failures_in_a_row_climb_the_ladder(url, (rounds - 1) as nat);
    }
}

/// A session that did open and then ended is retried promptly, however often dialling had failed
/// before.
pub proof fn law_an_ended_session_is_retried_promptly(supervisor: Supervisor)
    requires
        supervisor.spec_takes(LinkEvent::Connected),
    ensures
        ({
            let open = supervisor.stepped(LinkEvent::Connected);
            &&& open.1 == LinkActionView::RunSession
            &&& open.0.spec_takes(LinkEvent::Closed)
            &&& open.0.stepped(LinkEvent::Closed).1 == LinkActionView::Rest(1_000)
        }),
{
}

/// Re-provisioning reconnects immediately: a change of the configuration ends the backoff, or the
/// idleness of a screen without a server, and forgets the failures before it.
pub proof fn law_reprovisioning_reconnects_immediately(supervisor: Supervisor)
    requires
        supervisor.spec_takes(LinkEvent::Changed),
    ensures
        supervisor.stepped(LinkEvent::Changed) == (
            Supervisor { phase: Phase::Reading, attempt: 0 },
            LinkActionView::ReadConfig,
        ),
{
}

/// A screen without a server stays idle, and one with a server dials it.
pub proof fn law_an_unprovisioned_screen_stays_idle(supervisor: Supervisor, url: Option<String>)
    requires
        supervisor.phase == Phase::Reading,
    ensures
        supervisor.stepped(LinkEvent::Configured(url)).1 is AwaitChange <==> url is None,
        supervisor.stepped(LinkEvent::Configured(url)).1 is Dial <==> url is Some,
{
}

/// A supervisor never gives up: whatever it waits for, what comes leads on to something else,
/// unless there is nobody left to talk to.
pub proof fn law_the_supervisor_never_gives_up(supervisor: Supervisor, event: LinkEvent)
    requires
        supervisor.spec_takes(event),
    ensures
        supervisor.stepped(event).1 is Stop <==> event is Orphaned,
        supervisor.stepped(event).0.phase == Phase::Stopped <==> event is Orphaned,
{
}

/// Nothing is buffered while the socket is down.
pub proof fn law_nothing_is_buffered_while_the_socket_is_down(
    control: ControlView,
    message: PlayerMessageView,
)
    ensures
        !control.connected ==> control.sent(message) == control,
        control.connected ==> control.sent(message).outbound == control.outbound.push(message),
        control.sent(message).connected == control.connected,
        control.sent(message).downloading == control.downloading,
        control.sent(message).config_epoch == control.config_epoch,
{
}

// --------------------------------------------------------------------- session

/// What a session cannot understand is dropped and never closes the connection, and it counts as
/// a sign of life like any other text.
pub proof fn law_an_unparseable_message_never_closes_the_connection(
    session: Session,
    state: AppState,
    control: ControlView,
    now: u128,
)
    ensures
        session.answer(SessionEvent::Text(None), state, now) is Wait,
        session.behind(SessionEvent::Text(None), control, now).last_seen == now,
        session.answer(SessionEvent::Text(Some(ServerMessage::Unknown)), state, now) !is End,
{
}

/// A connection that has been silent for more than a minute is given up at the next ping, and none
/// is given up before.
pub proof fn law_a_silent_connection_is_given_up(
    session: Session,
    state: AppState,
    control: ControlView,
    heard: u128,
    now: u128,
)
    ensures
        ({
            let alive = session.behind(SessionEvent::Alive, control, heard);
            let answer = alive.answer(SessionEvent::PingDue, state, now);
            &&& answer is End <==> now > heard + SILENCE_LIMIT
            &&& answer is Ping <==> now <= heard + SILENCE_LIMIT
        }),
{
}

/// A change of the configuration is announced once: it is news until the session has looked at it,
/// which it answers with a single hello, and no longer.
pub proof fn law_a_change_is_announced_once(
    session: Session,
    state: AppState,
    control: ControlView,
    now: u128,
)
    requires
        control.config_epoch < u64::MAX,
        !session.spec_has_news(control),
        state.config@.control_url() == Some(session.url@),
    ensures
        ({
            let changed = ControlView {
                config_epoch: (control.config_epoch + 1) as u64,
                ..control
            };
            &&& session.spec_has_news(changed)
            &&& session.answer(SessionEvent::Changed, state, now) == SessionActionView::Send(
                service::spec_hello(state),
            )
            &&& !session.behind(SessionEvent::Changed, changed, now).spec_has_news(changed)
        }),
{
}

/// Another server address ends the session, so that the new one is dialled.
pub proof fn law_another_address_reconnects(session: Session, state: AppState, now: u128)
    ensures
        session.answer(SessionEvent::Changed, state, now) is End <==> state.config@.control_url()
            != Some(session.url@),
{
}

// ------------------------------------------------------------------- downloads

/// A run makes five attempts at most: the attempts are numbered from one to five, and behind the
/// fifth there is no further one.
pub proof fn law_a_download_is_tried_five_times_at_most(
    run: RunView,
    state: AppState,
    event: RunEvent,
)
    requires
        run.wf(),
        run.takes(event),
    ensures
        run.stepped(state, event).0.wf(),
        run.stepped(state, event).1 is Attempt ==> run.stepped(state, event).0.attempt
            == run.attempt + 1 && run.attempt + 1 <= DOWNLOAD_ATTEMPTS,
        run.stepped(state, event).1 !is Attempt ==> run.stepped(state, event).0.attempt
            == run.attempt,
{
}

/// How far a run is from its end, at most.
pub open spec fn distance(run: RunView) -> int {
    match run.phase {
        RunPhase::Preparing => 200,
        RunPhase::Releasing { before, polls } => 100 + RELEASE_POLLS - polls,
        RunPhase::Downloading => 2 * (DOWNLOAD_ATTEMPTS - run.attempt) + 2,
        RunPhase::Resting => 2 * (DOWNLOAD_ATTEMPTS - run.attempt) + 1,
        RunPhase::Playing => 1,
        RunPhase::Over => 0,
    }
}

/// A run ends: every step brings it nearer to its end, and it is over exactly when it gives up or
/// has told the screen of its video.
pub proof fn law_a_run_ends(run: RunView, state: AppState, event: RunEvent)
    requires
        run.wf(),
        run.takes(event),
    ensures
        0 <= distance(run.stepped(state, event).0) < distance(run),
        run.stepped(state, event).0.phase == RunPhase::Over <==> (run.stepped(state, event).1 is Stop
            || run.stepped(state, event).1 is Finish),
        run.stepped(state, event).1 is Finish ==> run.phase == RunPhase::Playing,
{
}

/// A failure is retried exactly where it may be resumed and attempts are left, after a pause that
/// grows with the attempts.
pub proof fn law_resumable_failures_are_retried(run: RunView, state: AppState, failure: Failure)
    requires
        run.wf(),
        run.phase == RunPhase::Downloading,
    ensures
        ({
            let next = run.stepped(state, RunEvent::Ended(Err(failure)));
            if failure.resumable && run.attempt < DOWNLOAD_ATTEMPTS {
                &&& next.1 == (RunActionView::Rest {
                    rest_ms: service::backoff(run.attempt as nat) as u64,
                })
                &&& next.0.takes(RunEvent::Rested)
                &&& next.0.stepped(state, RunEvent::Rested).1 is Attempt
            } else {
                next.1 is Stop
            }
        }),
{
    law_the_backoff_never_shrinks(run.attempt as nat, run.attempt as nat);
}

/// A failed download leaves the screen what it had, and the server hears of it under the code of
/// the failure, if it can be reached.
pub proof fn law_a_failed_download_leaves_the_screen_what_it_had(
    run: RunView,
    state: AppState,
    control: ControlView,
    failure: Failure,
)
    requires
        run.wf(),
        run.phase == RunPhase::Downloading,
    ensures
        run.config_behind(state.config@, RunEvent::Ended(Err(failure))) == state.config@,
        run.stepped(state, RunEvent::Ended(Err(failure))).1 !is Play,
        control.connected ==> run.control_behind(
            state,
            control,
            RunEvent::Ended(Err(failure)),
        ).outbound == control.outbound.push(
            PlayerMessageView::Error { code: failure.code@, detail: failure.detail@ },
        ),
{
}

/// One download at a time: while a run goes on no other begins, and once it is over the next may.
pub proof fn law_one_download_at_a_time(
    run: RunView,
    state: AppState,
    control: ControlView,
    event: RunEvent,
)
    requires
        run.wf(),
        run.takes(event),
        control.downloading,
    ensures
        run.control_behind(state, control, event).downloading <==> run.stepped(
            state,
            event,
        ).0.phase != RunPhase::Over,
{
}

/// The file on screen is asked for before it is replaced, and no other download asks for anything.
pub proof fn law_the_screen_releases_only_the_file_to_be_replaced(
    run: RunView,
    state: AppState,
    event: RunEvent,
)
    requires
        run.takes(event),
    ensures
        run.phase == RunPhase::Preparing && event is Ready ==> (run.stepped(
            state,
            event,
        ).1 is Release <==> text::opt_text(state.inner.active_video_id) == Some(
            run.request.video_id,
        )),
        run.stepped(state, event).1 is Release ==> run.phase == RunPhase::Preparing,
{
}

/// Only tenths are forwarded, and none twice in a row.
pub proof fn law_only_tenths_are_forwarded(run: RunView, percent: u8)
    ensures
        run.forwards(percent) ==> percent % 10 == 0,
        !(RunView { last_reported: Some(percent), ..run }).forwards(percent),
        run.last_reported is None ==> run.forwards(0) && run.forwards(100),
{
}

// -------------------------------------------------------------------- messages

/// A heartbeat tells what was reported: after the webview has switched to a video and reported how
/// it plays, the next heartbeat carries that video, that flag and that position, along with the
/// screen's own id and store, the free space that was measured and the time since the start.
pub proof fn law_a_heartbeat_tells_what_was_reported(
    state: AppState,
    video_id: String,
    playing: bool,
    position_ms: i64,
    free: u64,
    now: u128,
)
    ensures
        service::spec_heartbeat(
            state.switched(video_id).reported(playing, position_ms),
            free,
            now,
        ) matches PlayerMessageView::Heartbeat {
            device_id,
            store_id,
            current_video_id,
            playing: told,
            position_ms: place,
            free_bytes,
            app_version,
            uptime_ms,
        } && {
            &&& told == playing
            &&& place == position_ms
            &&& current_video_id == Some(video_id@)
            &&& device_id == state.config.config.device_id@
            &&& store_id == text::opt_text(state.config.config.store_id)
            &&& free_bytes == free
            &&& app_version == "desktop-0.1.2"@
            &&& now < state.started_at ==> uptime_ms == 0
            &&& state.started_at <= now && now - state.started_at < 1_000_000 * (
            0x1_0000_0000_0000_0000) ==> uptime_ms * 1_000_000 <= now - state.started_at < (uptime_ms
                + 1) * 1_000_000
        },
{
    let elapsed = now - state.started_at;
    if 0 <= elapsed < 1_000_000 * (0x1_0000_0000_0000_0000) {
        let whole = elapsed / 1_000_000;
        assert(0 <= whole < 0x1_0000_0000_0000_0000);
        assert(whole % 0x1_0000_0000_0000_0000 == whole);
    }
}

/// Heartbeats of states that differ in how they play, where, or what, differ.
pub proof fn law_heartbeats_tell_states_apart(a: AppState, b: AppState, free: u64, now: u128)
    requires
        service::spec_heartbeat(a, free, now) == service::spec_heartbeat(b, free, now),
    ensures
        a.inner.playback == b.inner.playback,
        text::opt_text(a.inner.active_video_id) == text::opt_text(b.inner.active_video_id),
        a.config@.device_id == b.config@.device_id,
        a.config@.store_id == b.config@.store_id,
{
}

/// A screen announces itself with its own id, store and name, and with the video it has switched
/// to.
pub proof fn law_a_hello_tells_who_and_what(state: AppState, video_id: String)
    ensures
        service::spec_hello(state.switched(video_id)) matches PlayerMessageView::Hello {
            device_id,
            store_id,
            device_name,
            app_version,
            current_video_id,
        } && {
            &&& device_id == state.config.config.device_id@
            &&& store_id == text::opt_text(state.config.config.store_id)
            &&& device_name == text::opt_text(state.config.config.device_name)
            &&& app_version == "desktop-0.1.2"@
            &&& current_video_id == Some(video_id@)
        },
        state.inner.active_video_id is None ==> (service::spec_hello(
            state,
        ) matches PlayerMessageView::Hello { current_video_id, .. } && current_video_id is None),
{
}

/// A session passes on what it is given: what is queued is sent, and what the server says is
/// handled, each as it is; a heartbeat goes out when it is due.
pub proof fn law_a_session_passes_messages_on(
    session: Session,
    state: AppState,
    control: ControlView,
    out: PlayerMessage,
    said: ServerMessage,
    free_bytes: u64,
    now: u128,
)
    ensures
        session.answer(SessionEvent::Outbound(out), state, now) == SessionActionView::Send(out@),
        session.answer(SessionEvent::Text(Some(said)), state, now) == SessionActionView::Handle(said),
        session.behind(SessionEvent::Text(Some(said)), control, now).last_seen == now,
        session.answer(SessionEvent::HeartbeatDue { free_bytes }, state, now)
            == SessionActionView::Send(service::spec_heartbeat(state, free_bytes, now)),
        session.answer(SessionEvent::Alive, state, now) is Wait,
        session.answer(SessionEvent::Frame, state, now) is Wait,
        session.answer(SessionEvent::Gone, state, now) is End,
        session.answer(SessionEvent::Orphaned, state, now) is End,
        session.answer(SessionEvent::SendFailed, state, now) is End,
{
}

/// What is no sign of life does not put off the end of a silent connection, and nothing that
/// happens in a session changes where it leads.
pub proof fn law_only_signs_of_life_count(
    session: Session,
    event: SessionEvent,
    control: ControlView,
    now: u128,
)
    ensures
        session.behind(event, control, now).url == session.url,
        !(event is Text) && !(event is Alive) ==> session.behind(event, control, now).last_seen
            == session.last_seen,
        !(event is Changed) ==> session.behind(event, control, now).seen_epoch == session.seen_epoch,
{
}

/// Every message is carried out as what it is.
pub proof fn law_every_message_is_carried_out(state: AppState, message: ServerMessage, command: Command)
    requires
        service::carries_out(state, message, command),
    ensures
        message is Reload ==> command is Reload,
        message is Reboot ==> command is Restart,
        message is GetLogs ==> command is SendLogs,
        message is Unknown || message is TimeResponse ==> command is Nothing,
        message is Identify ==> (command matches Command::Identify(name) && name@ == (
        if state.config.config.device_name is Some {
            state.config.config.device_name->0@
        } else {
            state.config.config.device_id@
        })),
        message matches ServerMessage::Configure { store_id, device_name } ==> (
        command matches Command::Configure { store_id: store, device_name: name } && store == store_id
            && name == device_name),
        message matches ServerMessage::Assign {
            video_id,
            url,
            sha256,
            size_bytes,
            group_id,
            start_epoch_ms,
        } ==> (command matches Command::Assign(assignment) && {
            &&& assignment.video_id == video_id
            &&& assignment.url == url
            &&& assignment.sha256 == sha256
            &&& assignment.size_bytes == size_bytes
            &&& assignment.group_id == group_id
            &&& assignment.start_epoch_ms == start_epoch_ms
        }),
{
}

/// Provisioning sets what it names and leaves the rest alone, and the channel learns of it exactly
/// once, if anything changed.
pub proof fn law_provisioning_is_announced_if_it_changed_anything(
    state: AppState,
    control: ControlView,
    server: Option<Seq<char>>,
    name: Option<Seq<char>>,
    store_id: Option<Seq<char>>,
    state_after: AppState,
    control_after: ControlView,
    changed: bool,
)
    requires
        control.config_epoch < u64::MAX,
        service::provisioned(
            state,
            control,
            server,
            name,
            store_id,
            state_after,
            control_after,
            changed,
        ),
    ensures
        server is Some ==> state_after.config@.server == server,
        server is None ==> state_after.config@.server == state.config@.server,
        name is Some ==> state_after.config@.device_name == name,
        name is None ==> state_after.config@.device_name == state.config@.device_name,
        store_id is Some ==> state_after.config@.store_id == store_id,
        store_id is None ==> state_after.config@.store_id == state.config@.store_id,
        state_after.config@.device_id == state.config@.device_id,
        state_after.config@.current_video_id == state.config@.current_video_id,
        state_after.inner == state.inner,
        state_after.started_at == state.started_at,
        changed <==> state_after.config@ != state.config@,
        changed ==> control_after.config_epoch == control.config_epoch + 1,
        !changed ==> control_after.config_epoch == control.config_epoch,
        control_after.outbound == control.outbound,
        control_after.connected == control.connected,
        control_after.downloading == control.downloading,
{
}

// ----------------------------------------------------------------- assignments

/// An assignment is downloaded as it was announced: the run that it starts asks for its own video
/// at its own address, and accepts a file exactly where that has the length and the digest that
/// the assignment announced.
pub proof fn law_an_assignment_is_downloaded_as_announced(
    assignment: Assignment,
    state: AppState,
    transfer: TransferView,
)
    requires
        transfer.covered.len() == transfer.written,
        text::opt_text(state.inner.active_video_id) != Some(assignment.video_id@),
    ensures
        ({
            let run = RunView::of(assignment);
            let next = run.stepped(state, RunEvent::Ready);
            &&& run.takes(RunEvent::Ready)
            &&& run.wf()
            &&& run.group_id == text::opt_text(assignment.group_id)
            &&& run.start_epoch_ms == assignment.start_epoch_ms
            &&& next.0.attempt == 1
            &&& next.1 matches RunActionView::Attempt(download, action)
            &&& action is ListPending
            &&& download.phase is Listing
            &&& download.active == text::opt_text(state.inner.active_video_id)
            &&& download.request.video_id == assignment.video_id@
            &&& download.request.url == assignment.url@
            &&& download.request.size_bytes == assignment.size_bytes
            &&& transfer.judged(download.request) is None <==> {
                &&& transfer.covered.len() == assignment.size_bytes
                &&& text::lowered(text::hex_text(digest::sha256(transfer.covered)))
                    == text::lowered(assignment.sha256@)
            }
            &&& download.request.sha256 == assignment.sha256@
        }),
{
}

/// Every attempt is made for the same video as the one before, with nothing forwarded yet, and
/// knows what is on screen by then.
pub proof fn law_every_attempt_is_for_the_same_video(run: RunView, state: AppState, event: RunEvent)
    requires
        run.wf(),
        run.takes(event),
    ensures
        ({
            let next = run.stepped(state, event);
            &&& next.0.request == run.request
            &&& next.0.group_id == run.group_id
            &&& next.0.start_epoch_ms == run.start_epoch_ms
            &&& next.1 matches RunActionView::Attempt(download, action) ==> {
                &&& download.request == run.request
                &&& download.active == text::opt_text(state.inner.active_video_id)
                &&& download.phase is Listing
                &&& action is ListPending
                &&& next.0.last_reported is None
            }
        }),
{
}

/// An id that is no usable file name is answered with an HTTP error that shows it.
pub proof fn law_an_unusable_id_is_shown(video_id: Seq<char>)
    ensures
        service::unusable(video_id) matches PlayerMessageView::Error { code, detail } && code
            == "HTTP_ERROR"@ && detail == "unusable videoId "@ + service::debug_text(video_id),
{
}

/// A video in place is handed to the screen and remembered, with the group and the origin that it
/// was assigned with; everything else that the screen remembers stays.
pub proof fn law_a_video_in_place_is_played_and_remembered(
    run: RunView,
    state: AppState,
    control: ControlView,
    file: StorePath,
)
    requires
        run.phase == RunPhase::Downloading,
    ensures
        ({
            let event = RunEvent::Ended(Ok(file));
            let next = run.stepped(state, event);
            let config = run.config_behind(state.config@, event);
            &&& next.1 == RunActionView::Play(file@)
            &&& next.0.takes(RunEvent::Played)
            &&& next.0.stepped(state, RunEvent::Played).1 is Finish
            &&& config.current_video_id == Some(run.request.video_id)
            &&& config.group_id == run.group_id
            &&& config.sync_origin_ms == run.start_epoch_ms
            &&& config.device_id == state.config@.device_id
            &&& config.device_name == state.config@.device_name
            &&& config.store_id == state.config@.store_id
            &&& config.server == state.config@.server
            &&& run.control_behind(state, control, event) == control
        }),
{
}

/// Nothing but a video in place changes what the screen remembers, and nothing but a failure is
/// reported.
pub proof fn law_nothing_else_is_remembered_or_reported(
    run: RunView,
    state: AppState,
    control: ControlView,
    event: RunEvent,
)
    requires
        run.takes(event),
        !(event is Ended),
    ensures
        run.config_behind(state.config@, event) == state.config@,
        run.control_behind(state, control, event).outbound == control.outbound,
        run.control_behind(state, control, event).connected == control.connected,
        run.control_behind(state, control, event).config_epoch == control.config_epoch,
{
}

/// The screen has three seconds to let go of its file: it is asked thirty times at most, a tenth of
/// a second apart, and not again once it has.
pub proof fn law_the_screen_has_three_seconds(run: RunView, state: AppState, before: u64, polls: u32)
    requires
        run.phase == (RunPhase::Releasing { before, polls }),
        run.wf(),
    ensures
        ({
            let next = run.stepped(state, RunEvent::Rested);
            &&& polls < 30
            &&& state.inner.released_seq != before || polls == 29 ==> next.1 is Attempt
            &&& state.inner.released_seq == before && polls < 29 ==> {
                &&& next.1 == (RunActionView::Rest { rest_ms: 100 })
                &&& next.0.phase == (RunPhase::Releasing { before, polls: (polls + 1) as u32 })
            }
        }),
{
}

/// Where the file on screen is to be replaced, its release is waited for from now on.
pub proof fn law_a_release_is_counted_from_the_request(run: RunView, state: AppState)
    requires
        run.phase == RunPhase::Preparing,
        text::opt_text(state.inner.active_video_id) == Some(run.request.video_id),
    ensures
        ({
            let next = run.stepped(state, RunEvent::Ready);
            &&& next.1 == (RunActionView::Release { rest_ms: 100 })
            &&& next.0.phase == (RunPhase::Releasing {
                before: state.inner.released_seq,
                polls: 0,
            })
        }),
        run.stepped(state, RunEvent::Unable).1 is Stop,
{
}

/// A percentage is forwarded exactly where it is a multiple of ten and was not the last one to be
/// forwarded.
pub proof fn law_which_percentages_are_forwarded(run: RunView, percent: u8)
    ensures
        run.forwards(percent) <==> percent as int % 10 == 0 && !(run.last_reported is Some
            && run.last_reported->0 == percent),
{
}

/// The cadences of the channel: a heartbeat every thirty seconds, a ping every twenty, a minute of
/// silence at most, a quarter of a minute to connect, and five attempts at a download.
pub proof fn law_the_cadences_of_the_channel()
    ensures
        HEARTBEAT_INTERVAL_MS == 30 * 1_000,
        PING_INTERVAL_MS == 20 * 1_000,
        SILENCE_LIMIT == 60 * 1_000_000_000,
        CONNECT_TIMEOUT_MS == 15 * 1_000,
        DOWNLOAD_ATTEMPTS == 5,
{
}

/// Which assignments are downloaded: those for a usable id, unless the video is on screen and its
/// file is there, and unless another download is running. An unusable id is refused, whatever else
/// holds, and the video on screen is left to play even while another is downloaded.
pub proof fn law_which_assignments_are_downloaded(
    video_id: Seq<char>,
    active: Option<Seq<char>>,
    exists: bool,
    downloading: bool,
)
    ensures
        ({
            let decision = service::decision(video_id, active, exists, downloading);
            let on_screen = active is Some && active->0 == video_id && exists;
            &&& decision is Refuse <==> !store::usable_id(video_id)
            &&& decision is KeepPlaying <==> store::usable_id(video_id) && on_screen
            &&& decision is Wait <==> store::usable_id(video_id) && !on_screen && downloading
            &&& decision is Download <==> store::usable_id(video_id) && !on_screen && !downloading
        }),
{
}

/// Reaching a tenth for the first time in a row tells the server of the video and the percentage,
/// if it can be reached; anything else tells it nothing.
pub proof fn law_the_server_hears_of_every_tenth(run: RunView, control: ControlView, percent: u8)
    ensures
        ({
            let (after, told) = run.reaching(control, percent);
            let due = percent as int % 10 == 0 && run.last_reported != Some(percent);
            &&& due ==> after.last_reported == Some(percent)
            &&& due && control.connected ==> told.outbound == control.outbound.push(
                PlayerMessageView::DownloadProgress { video_id: run.request.video_id, percent },
            )
            &&& !due || !control.connected ==> told == control
            &&& !due ==> after == run
            &&& after.attempt == run.attempt
            &&& after.phase == run.phase
            &&& after.request == run.request
        }),
{
}

/// The log is sent as it is, under the screen's own id.
pub proof fn law_the_log_is_sent_as_it_is(state: AppState, tail: Seq<char>, truncated: bool)
    ensures
        service::logs_message(state, tail, truncated) matches PlayerMessageView::Logs {
            device_id,
            text,
            truncated: cut,
        } && device_id == state.config.config.device_id@ && text == tail && cut == truncated,
{
}

/// What the channel, a session and a run do is what they say.
pub proof fn law_what_is_done_is_what_is_said(
    link: LinkAction,
    session: SessionAction,
    run: RunAction,
)
    ensures
        link is ReadConfig <==> link@ is ReadConfig,
        link is AwaitChange <==> link@ is AwaitChange,
        link matches LinkAction::Dial(url) ==> link@ == LinkActionView::Dial(url@),
        link is RunSession <==> link@ is RunSession,
        link matches LinkAction::Rest(wait) ==> link@ == LinkActionView::Rest(wait as nat),
        link is Stop <==> link@ is Stop,
        session is Wait <==> session@ is Wait,
        session matches SessionAction::Handle(message) ==> session@ == SessionActionView::Handle(
            message,
        ),
        session matches SessionAction::Send(message) ==> session@ == SessionActionView::Send(
            message@,
        ),
        session is Ping <==> session@ is Ping,
        session is End <==> session@ is End,
        run matches RunAction::Release { rest_ms } ==> run@ == (RunActionView::Release { rest_ms }),
        run matches RunAction::Rest { rest_ms } ==> run@ == (RunActionView::Rest { rest_ms }),
        run matches RunAction::Attempt(download, action) ==> run@ == RunActionView::Attempt(
            download@,
            action@,
        ),
        run matches RunAction::Play(file) ==> run@ == RunActionView::Play(file@),
        run is Stop <==> run@ is Stop,
        run is Finish <==> run@ is Finish,
{
}

/// A channel and a run are known by their fields.
pub proof fn law_a_channel_and_a_run_are_known_by_their_fields(
    control: ControlHandle,
    run: DownloadRun,
    i: int,
)
    ensures
        control@.outbound.len() == control.outbound@.len(),
        0 <= i < control.outbound@.len() ==> control@.outbound[i] == control.outbound@[i]@,
        control@.config_epoch == control.config_epoch,
        control@.connected == control.connected,
        control@.downloading == control.downloading,
        run@.request.video_id == run.request.video_id@,
        run@.request.url == run.request.url@,
        run@.request.sha256 == run.request.sha256@,
        run@.request.size_bytes == run.request.size_bytes,
        run@.group_id == text::opt_text(run.group_id),
        run@.start_epoch_ms == run.start_epoch_ms,
        run@.attempt == run.attempt,
        run@.last_reported == run.last_reported,
        run@.phase == run.phase,
{
}

/// A channel starts with nothing to send, with no socket and with no download.
pub proof fn law_a_channel_starts_closed(message: PlayerMessageView)
    ensures
        ControlView::closed().outbound.len() == 0,
        ControlView::closed().config_epoch == 0,
        !ControlView::closed().connected,
        !ControlView::closed().downloading,
        ControlView::closed().sent(message).outbound.len() == 0,
{
}

/// Messages go out in the order in which they came, each of them once.
pub proof fn law_first_come_first_sent(control: ControlView, message: PlayerMessageView, i: int)
    requires
        control.connected,
    ensures
        ({
            let (next, left) = control.sent(message).taken();
            &&& control.outbound.len() == 0 ==> next == Some(message) && left.outbound.len() == 0
            &&& control.outbound.len() > 0 ==> {
                &&& next == Some(control.outbound[0])
                &&& left.outbound.len() == control.outbound.len()
                &&& 0 <= i < control.outbound.len() - 1 ==> left.outbound[i] == control.outbound[i
                    + 1]
                &&& left.outbound[control.outbound.len() - 1] == message
            }
            &&& left.connected
            &&& left.config_epoch == control.config_epoch
            &&& left.downloading == control.downloading
        }),
        control.outbound.len() == 0 ==> control.taken().0 is None && control.taken().1 == control,
{
}

/// A change of the configuration is counted, and nothing else happens to the channel.
pub proof fn law_a_change_is_counted(control: ControlView)
    requires
        control.config_epoch < u64::MAX,
    ensures
        control.changed().config_epoch == control.config_epoch + 1,
        control.changed().outbound == control.outbound,
        control.changed().connected == control.connected,
        control.changed().downloading == control.downloading,
{
}

/// The socket is up from the moment the server answers until the session is closed, and at no other
/// time; a change of it leaves what waits to be sent alone.
pub proof fn law_the_socket_is_up_during_a_session(
    supervisor: Supervisor,
    event: LinkEvent,
    control: ControlView,
)
    requires
        supervisor.spec_takes(event),
    ensures
        supervisor.channel_behind(event, control).connected <==> event is Connected,
        supervisor.channel_behind(event, control).outbound == control.outbound,
        supervisor.channel_behind(event, control).config_epoch == control.config_epoch,
        supervisor.channel_behind(event, control).downloading == control.downloading,
{
}

/// A session goes to the address that was dialled, has heard nothing to complain of at its
/// beginning, and knows the configuration that its hello told of.
pub proof fn law_a_session_begins_with_its_hello(
    url: String,
    control: ControlView,
    state: AppState,
    now: u128,
)
    requires
        control.config_epoch < u64::MAX,
    ensures
        ({
            let session = Opening::to(url, control).session_from(now);
            &&& session.url == url
            &&& session.last_seen == now
            &&& session.seen_epoch == control.config_epoch
            &&& !session.spec_has_news(control)
            &&& session.spec_has_news(control.changed())
            &&& session.answer(SessionEvent::PingDue, state, now) is Ping
        }),
{
}

/// The dashboard sets the store and the name of a screen, each where it is given, and never its
/// server or anything else.
pub proof fn law_the_dashboard_sets_store_and_name(
    config: ConfigView,
    store_id: Option<Seq<char>>,
    device_name: Option<Seq<char>>,
)
    ensures
        ({
            let after = service::configured(config, store_id, device_name);
            &&& store_id is Some ==> after.store_id == store_id
            &&& store_id is None ==> after.store_id == config.store_id
            &&& device_name is Some ==> after.device_name == device_name
            &&& device_name is None ==> after.device_name == config.device_name
            &&& after.server == config.server
            &&& after.device_id == config.device_id
            &&& after.current_video_id == config.current_video_id
            &&& after.group_id == config.group_id
            &&& after.sync_origin_ms == config.sync_origin_ms
        }),
{
}

/// A launch sets the server, the store and the name of a screen, each where it is given, and nothing
/// else.
pub proof fn law_a_launch_sets_server_store_and_name(config: ConfigView, given: Provisioning)
    ensures
        ({
            let after = service::launched_with(config, given@);
            &&& given.server is Some ==> after.server == text::opt_text(given.server)
            &&& given.server is None ==> after.server == config.server
            &&& given.store is Some ==> after.store_id == text::opt_text(given.store)
            &&& given.store is None ==> after.store_id == config.store_id
            &&& given.name is Some ==> after.device_name == text::opt_text(given.name)
            &&& given.name is None ==> after.device_name == config.device_name
            &&& after.device_id == config.device_id
            &&& after.current_video_id == config.current_video_id
            &&& after.group_id == config.group_id
            &&& after.sync_origin_ms == config.sync_origin_ms
        }),
{
}

/// Only the file of the video on screen is looked for, among the files that play.
pub proof fn law_only_the_file_on_screen_is_looked_for(state: AppState, video_id: Seq<char>)
    ensures
        service::file_looked_for(state, video_id) matches Some(file) ==> {
            &&& text::opt_text(state.inner.active_video_id) == Some(video_id)
            &&& file.dir == state.store.media_dir@
            &&& file.name == video_id + ".mp4"@
        },
        store::usable_id(video_id) && text::opt_text(state.inner.active_video_id) == Some(video_id)
            ==> service::file_looked_for(state, video_id) is Some,
        !store::usable_id(video_id) ==> service::file_looked_for(state, video_id) is None,
{
}

/// What there is stands for itself, and what there is not for nothing.
pub proof fn law_what_is_optional_is_there_or_not(
    message: Option<PlayerMessage>,
    path: Option<StorePath>,
)
    ensures
        message is None <==> service::opt_message(message) is None,
        message is Some ==> service::opt_message(message) == Some(message->0@),
        path is None <==> service::opt_path(path) is None,
        path is Some ==> service::opt_path(path) == Some(path->0@),
{
}

} // verus!
