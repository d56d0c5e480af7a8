//! The control channel.
//!
//! One supervisor owns the connection. It reads the server address out of the config each time
//! round, dials, runs a session until something ends it, and backs off before trying again. A
//! configuration change interrupts the backoff, so re-provisioning a screen reconnects
//! immediately instead of waiting out a minute.
//!
//! What is decided here is decided from plain values; whoever runs the channel dials, sends,
//! sleeps and downloads, and says how it went.

use vstd::prelude::*;
use vstd::string::*;

use crate::app;
use crate::app::AppState;
use crate::cli::{Provisioning, ProvisioningView};
use crate::config::{borrow_opt, ConfigView};
use crate::download::{Failure, Request, RequestView, HTTP_ERROR};
use crate::fetch;
use crate::fetch::{Action, Download};
use crate::protocol::{app_version, PlayerMessage, PlayerMessageView, ServerMessage};
use crate::store;
use crate::store::{sanitize_video_id, PathView, StorePath};
use crate::text;
use crate::text::opt_text_eq;

verus! {

/// How often a heartbeat is due, in milliseconds.
pub const HEARTBEAT_INTERVAL_MS: u64 = 30_000;

/// How often a ping is due, in milliseconds.
pub const PING_INTERVAL_MS: u64 = 20_000;

/// How long a connection may be silent, in nanoseconds. A half-open TCP connection never errors
/// on its own; this is what notices.
pub const SILENCE_LIMIT: u128 = 60_000_000_000;

/// How long dialling may take, in milliseconds.
pub const CONNECT_TIMEOUT_MS: u64 = 15_000;

pub const BASE_BACKOFF_MS: u64 = 1_000;

pub const MAX_BACKOFF_MS: u64 = 60_000;

/// Downloads report every whole percent; every tenth is forwarded.
pub const PROGRESS_STEP: u8 = 10;

/// How often a download is tried.
pub const DOWNLOAD_ATTEMPTS: u32 = 5;

/// How often the screen is asked whether it has released its file.
pub const RELEASE_POLLS: u32 = 30;

/// The pause before each time, in milliseconds.
pub const RELEASE_POLL_MS: u64 = 100;

// --------------------------------------------------------------------- backoff

/// How long to wait after so many failures in a row: a second, and twice as long after each
/// further one, up to a minute.
pub open spec fn backoff(attempt: nat) -> nat
    decreases attempt,
{
    if attempt <= 1 {
        BASE_BACKOFF_MS as nat
    } else if 2 * backoff((attempt - 1) as nat) > MAX_BACKOFF_MS {
        MAX_BACKOFF_MS as nat
    } else {
        2 * backoff((attempt - 1) as nat)
    }
}

proof fn lemma_backoff_stays(from: nat, attempt: nat)
    requires
        backoff(from) == MAX_BACKOFF_MS,
        from <= attempt,
    ensures
        backoff(attempt) == MAX_BACKOFF_MS,
    decreases attempt,
{
    if from < attempt {
        lemma_backoff_stays(from, (attempt - 1) as nat);
    }
}

/// How long to wait after so many failures in a row. No failure at all is a session that did
/// open and then ended: retry promptly.
pub fn backoff_ms(attempt: u32) -> (wait: u64)
    ensures
        wait == backoff(attempt as nat),
{
    let mut wait: u64 = BASE_BACKOFF_MS;
    let mut i: u32 = 1;
    while i < attempt && wait < MAX_BACKOFF_MS
        invariant
            1 <= i,
            i <= attempt || i == 1,
            wait == backoff(i as nat),
            wait <= MAX_BACKOFF_MS,
        decreases attempt - i,
    {
        wait = if 2 * wait > MAX_BACKOFF_MS {
            MAX_BACKOFF_MS
        } else {
            2 * wait
        };
        i += 1;
    }
    proof {
        if i < attempt {
            lemma_backoff_stays(i as nat, attempt as nat);
        }
    }
    wait
}

// ---------------------------------------------------------------------- handle

/// Handle the rest of the app uses to talk to the control channel.
pub struct ControlHandle {
    /// What waits to be sent, first come first.
    pub outbound: Vec<PlayerMessage>,
    /// Bumped with every change of the configuration.
    pub config_epoch: u64,
    pub connected: bool,
    pub downloading: bool,
}

/// What a [`ControlHandle`] stands for.
#[verifier::ext_equal]
pub struct ControlView {
    pub outbound: Seq<PlayerMessageView>,
    pub config_epoch: u64,
    pub connected: bool,
    pub downloading: bool,
}

impl View for ControlHandle {
    type V = ControlView;

    open spec fn view(&self) -> ControlView {
        ControlView {
            outbound: self.outbound@.map_values(|m: PlayerMessage| m@),
            config_epoch: self.config_epoch,
            connected: self.connected,
            downloading: self.downloading,
        }
    }
}

impl ControlView {
    /// With a message queued, if the socket is up.
    pub open spec fn sent(self, message: PlayerMessageView) -> Self {
        if self.connected {
            ControlView { outbound: self.outbound.push(message), ..self }
        } else {
            self
        }
    }

    /// A channel that has not been opened yet.
    pub open spec fn closed() -> Self {
        ControlView {
            outbound: Seq::empty(),
            config_epoch: 0,
            connected: false,
            downloading: false,
        }
    }

    /// The next message to send, if there is one, and what is left behind it.
    pub open spec fn taken(self) -> (Option<PlayerMessageView>, Self) {
        if self.outbound.len() == 0 {
            (None, self)
        } else {
            (
                Some(self.outbound.first()),
                ControlView { outbound: self.outbound.drop_first(), ..self },
            )
        }
    }

    /// With word that the configuration changed.
    pub open spec fn changed(self) -> Self {
        ControlView { config_epoch: (self.config_epoch + 1) as u64, ..self }
    }
}

/// What a message stands for, if there is one.
pub open spec fn opt_message(message: Option<PlayerMessage>) -> Option<PlayerMessageView> {
    match message {
        Some(message) => Some(message@),
        None => None,
    }
}

/// A channel that has not been opened yet.
pub fn start() -> (control: ControlHandle)
    ensures
        control@ == (ControlView {
            outbound: Seq::empty(),
            config_epoch: 0,
            connected: false,
            downloading: false,
        }),
        control@ == ControlView::closed(),
{
    let control = ControlHandle {
        outbound: Vec::new(),
        config_epoch: 0,
        connected: false,
        downloading: false,
    };
    assert(control@.outbound =~= Seq::empty());
    control
}

impl ControlHandle {
    /// Queues a message. Returns false when the socket is down: nothing is buffered, so a screen
    /// that reconnects does not flush a minute of stale heartbeats at the server.
    pub fn send(&mut self, message: PlayerMessage) -> (queued: bool)
        ensures
            final(self)@ == old(self)@.sent(message@),
            queued == old(self).connected,
    {
        let ghost before = self@;
        if !self.connected {
            return false;
        }
        self.outbound.push(message);
        assert(self@.outbound =~= before.outbound.push(message@));
        true
    }

    /// The next message to send.
    pub fn next_outbound(&mut self) -> (message: Option<PlayerMessage>)
        ensures
            match message {
                Some(message) => old(self)@.outbound.len() > 0 && message@
                    == old(self)@.outbound.first() && final(self)@ == (ControlView {
                    outbound: old(self)@.outbound.drop_first(),
                    ..old(self)@
                }),
                None => old(self)@.outbound.len() == 0 && final(self)@ == old(self)@,
            },
            opt_message(message) == old(self)@.taken().0,
            final(self)@ == old(self)@.taken().1,
    {
        let ghost before = self@;
        if self.outbound.len() == 0 {
            return None;
        }
        let message = self.outbound.remove(0);
        assert(self@.outbound =~= before.outbound.drop_first());
        Some(message)
    }

    /// Whether the socket is up.
    pub fn is_connected(&self) -> (connected: bool)
        ensures
            connected == self.connected,
    {
        self.connected
    }

    /// The identity or the server address changed. Reconnect, or re-announce if the address is
    /// the same.
    pub fn config_changed(&mut self)
        requires
            old(self).config_epoch < u64::MAX,
        ensures
            final(self)@ == (ControlView {
                config_epoch: (old(self).config_epoch + 1) as u64,
                ..old(self)@
            }),
            final(self)@ == old(self)@.changed(),
    {
        self.config_epoch = self.config_epoch + 1;
    }
}

// ------------------------------------------------------------------ supervisor

/// What the supervisor waits for.
#[derive(Debug, Clone, Copy, PartialEq, Eq, Structural)]
pub enum Phase {
    /// The address of the server.
    Reading,
    /// A change of the configuration, as long as there is no server.
    Idle,
    /// The connection.
    Dialling,
    /// The end of the session.
    Open,
    /// The end of the backoff.
    Resting,
    /// Nothing more.
    Stopped,
}

/// What happened to the connection.
#[derive(Debug)]
pub enum LinkEvent {
    /// The control URL, if a server is configured.
    Configured(Option<String>),
    Changed,
    /// Nobody is left who could change the configuration.
    Orphaned,
    Connected,
    Refused,
    Closed,
    Rested,
}

/// What to do about the connection.
#[derive(Debug)]
pub enum LinkAction {
    ReadConfig,
    AwaitChange,
    Dial(String),
    RunSession,
    /// Rest so many milliseconds, or until the configuration changes.
    Rest(u64),
    Stop,
}

/// The owner of the connection: what it waits for, and how many times in a row dialling failed.
#[derive(Debug, Clone, Copy, PartialEq, Eq, Structural)]
pub struct Supervisor {
    pub phase: Phase,
    pub attempt: u32,
}

/// What a [`LinkAction`] stands for.
#[verifier::ext_equal]
pub enum LinkActionView {
    ReadConfig,
    AwaitChange,
    Dial(Seq<char>),
    RunSession,
    Rest(nat),
    Stop,
}

impl View for LinkAction {
    type V = LinkActionView;

    open spec fn view(&self) -> LinkActionView {
        match *self {
            LinkAction::ReadConfig => LinkActionView::ReadConfig,
            LinkAction::AwaitChange => LinkActionView::AwaitChange,
            LinkAction::Dial(url) => LinkActionView::Dial(url@),
            LinkAction::RunSession => LinkActionView::RunSession,
            LinkAction::Rest(wait) => LinkActionView::Rest(wait as nat),
            LinkAction::Stop => LinkActionView::Stop,
        }
    }
}

/// One more failure, as far as the counter goes.
pub open spec fn one_more(attempt: u32) -> u32 {
    if attempt < u32::MAX {
        (attempt + 1) as u32
    } else {
        attempt
    }
}

impl Supervisor {
    /// Whether an event answers what the supervisor waits for.
    pub open spec fn spec_takes(self, event: LinkEvent) -> bool {
        match (self.phase, event) {
            (Phase::Reading, LinkEvent::Configured(_)) => true,
            (Phase::Idle, LinkEvent::Changed) => true,
            (Phase::Idle, LinkEvent::Orphaned) => true,
            (Phase::Dialling, LinkEvent::Connected) => true,
            (Phase::Dialling, LinkEvent::Refused) => true,
            (Phase::Open, LinkEvent::Closed) => true,
            (Phase::Resting, LinkEvent::Rested) => true,
            (Phase::Resting, LinkEvent::Changed) => true,
            (Phase::Resting, LinkEvent::Orphaned) => true,
            _ => false,
        }
    }

    /// What the supervisor becomes and does next, if the event answers what it waits for.
    pub open spec fn stepped(self, event: LinkEvent) -> (Supervisor, LinkActionView) {
        let to = |phase: Phase, attempt: u32| Supervisor { phase, attempt };
        match (self.phase, event) {
            (Phase::Reading, LinkEvent::Configured(Some(url))) => (
                to(Phase::Dialling, self.attempt),
                LinkActionView::Dial(url@),
            ),
            (Phase::Reading, LinkEvent::Configured(None)) => (
                to(Phase::Idle, self.attempt),
                LinkActionView::AwaitChange,
            ),
            (Phase::Idle, LinkEvent::Changed) => (to(Phase::Reading, 0), LinkActionView::ReadConfig),
            (Phase::Dialling, LinkEvent::Connected) => (
                to(Phase::Open, 0),
                LinkActionView::RunSession,
            ),
            (Phase::Dialling, LinkEvent::Refused) => (
                to(Phase::Resting, one_more(self.attempt)),
                LinkActionView::Rest(backoff(one_more(self.attempt) as nat)),
            ),
            (Phase::Open, LinkEvent::Closed) => (
                to(Phase::Resting, self.attempt),
                LinkActionView::Rest(backoff(self.attempt as nat)),
            ),
            (Phase::Resting, LinkEvent::Rested) => (
                to(Phase::Reading, self.attempt),
                LinkActionView::ReadConfig,
            ),
            (Phase::Resting, LinkEvent::Changed) => (
                to(Phase::Reading, 0),
                LinkActionView::ReadConfig,
            ),
            (_, LinkEvent::Orphaned) => (to(Phase::Stopped, self.attempt), LinkActionView::Stop),
            _ => arbitrary(),
        }
    }

    /// What an event makes of the channel: it is up while a session is open.
    pub open spec fn channel_behind(self, event: LinkEvent, control: ControlView) -> ControlView {
        ControlView { connected: self.stepped(event).0.phase == Phase::Open, ..control }
    }

    /// A supervisor that has done nothing yet, and what it does first.
    pub fn new() -> (begun: (Supervisor, LinkAction))
        ensures
            begun.0 == (Supervisor { phase: Phase::Reading, attempt: 0 }),
            begun.1@ == LinkActionView::ReadConfig,
    {
        (Supervisor { phase: Phase::Reading, attempt: 0 }, LinkAction::ReadConfig)
    }

    /// Whether an event answers what the supervisor waits for.
    pub fn takes(&self, event: &LinkEvent) -> (yes: bool)
        ensures
            yes == self.spec_takes(*event),
    {
        match (self.phase, event) {
            (Phase::Reading, LinkEvent::Configured(_)) => true,
            (Phase::Idle, LinkEvent::Changed) => true,
            (Phase::Idle, LinkEvent::Orphaned) => true,
            (Phase::Dialling, LinkEvent::Connected) => true,
            (Phase::Dialling, LinkEvent::Refused) => true,
            (Phase::Open, LinkEvent::Closed) => true,
            (Phase::Resting, LinkEvent::Rested) => true,
            (Phase::Resting, LinkEvent::Changed) => true,
            (Phase::Resting, LinkEvent::Orphaned) => true,
            _ => false,
        }
    }

    /// Goes on once it is known how the last action went. The rest of the app sees the socket up
    /// exactly while a session is open.
    pub fn step(&mut self, control: &mut ControlHandle, event: LinkEvent) -> (action: LinkAction)
        requires
            old(self).spec_takes(event),
        ensures
            (*final(self), action@) == old(self).stepped(event),
            final(control)@ == (ControlView {
                connected: final(self).phase == Phase::Open,
                ..old(control)@
            }),
            final(control)@ == old(self).channel_behind(event, old(control)@),
    {
        let (phase, attempt, action) = match (self.phase, event) {
            (Phase::Reading, LinkEvent::Configured(Some(url))) => {
                (Phase::Dialling, self.attempt, LinkAction::Dial(url))
            },
            (Phase::Reading, LinkEvent::Configured(None)) => {
                (Phase::Idle, self.attempt, LinkAction::AwaitChange)
            },
            (Phase::Idle, LinkEvent::Changed) => (Phase::Reading, 0u32, LinkAction::ReadConfig),
            (Phase::Dialling, LinkEvent::Connected) => (Phase::Open, 0u32, LinkAction::RunSession),
            (Phase::Dialling, LinkEvent::Refused) => {
                let attempt: u32 = self.attempt.saturating_add(1);
                (Phase::Resting, attempt, LinkAction::Rest(backoff_ms(attempt)))
            },
            (Phase::Open, LinkEvent::Closed) => {
                (Phase::Resting, self.attempt, LinkAction::Rest(backoff_ms(self.attempt)))
            },
            (Phase::Resting, LinkEvent::Rested) => {
                (Phase::Reading, self.attempt, LinkAction::ReadConfig)
            },
            // Somebody re-provisioned the screen. Do not make them wait out a minute of backoff
            // to find out whether they got it right.
            (Phase::Resting, LinkEvent::Changed) => (Phase::Reading, 0u32, LinkAction::ReadConfig),
            (_, LinkEvent::Orphaned) => (Phase::Stopped, self.attempt, LinkAction::Stop),
            _ => vstd::pervasive::unreached(),
        };
        self.phase = phase;
        self.attempt = attempt;
        control.connected = phase == Phase::Open;
        action
    }
}

// -------------------------------------------------------------------- messages

/// How a screen announces itself.
pub open spec fn spec_hello(state: AppState) -> PlayerMessageView {
    PlayerMessageView::Hello {
        device_id: state.config@.device_id,
        store_id: state.config@.store_id,
        device_name: state.config@.device_name,
        app_version: "desktop-0.1.2"@,
        current_video_id: text::opt_text(state.inner.active_video_id),
    }
}

/// How a screen announces itself.
pub fn hello(state: &AppState) -> (message: PlayerMessage)
    ensures
        message@ == spec_hello(*state),
{
    let config = state.config.snapshot();
    PlayerMessage::Hello {
        device_id: config.device_id,
        store_id: config.store_id,
        device_name: config.device_name,
        app_version: app_version(),
        current_video_id: state.active_video_id(),
    }
}

/// The sign of life of a screen, with so many bytes free on its disk.
pub open spec fn spec_heartbeat(state: AppState, free_bytes: u64, now: u128) -> PlayerMessageView {
    PlayerMessageView::Heartbeat {
        device_id: state.config@.device_id,
        store_id: state.config@.store_id,
        current_video_id: text::opt_text(state.inner.active_video_id),
        playing: state.inner.playback.playing,
        position_ms: state.inner.playback.position_ms,
        free_bytes,
        app_version: "desktop-0.1.2"@,
        uptime_ms: app::millis_between(state.started_at, now) as u64,
    }
}

/// The sign of life of a screen.
pub fn heartbeat_message(state: &AppState, free_bytes: u64, now: u128) -> (message: PlayerMessage)
    ensures
        message@ == spec_heartbeat(*state, free_bytes, now),
{
    let config = state.config.snapshot();
    let playback = state.playback();
    PlayerMessage::Heartbeat {
        device_id: config.device_id,
        store_id: config.store_id,
        current_video_id: state.active_video_id(),
        playing: playback.playing,
        position_ms: playback.position_ms,
        free_bytes,
        app_version: app_version(),
        uptime_ms: state.uptime_ms(now),
    }
}

// --------------------------------------------------------------------- session

/// What happened in a session.
#[derive(Debug)]
pub enum SessionEvent {
    /// A text frame: a message, or nothing where it could not be understood.
    Text(Option<ServerMessage>),
    /// A ping, a pong or a binary frame.
    Alive,
    /// A raw frame.
    Frame,
    /// The server closed the connection, or it broke, or it is over.
    Gone,
    /// Somebody queued a message.
    Outbound(PlayerMessage),
    HeartbeatDue { free_bytes: u64 },
    PingDue,
    /// The configuration changed since the session last looked.
    Changed,
    /// Nobody is left who could change the configuration.
    Orphaned,
    SendFailed,
}

/// What to do in a session.
#[derive(Debug)]
pub enum SessionAction {
    Wait,
    Handle(ServerMessage),
    Send(PlayerMessage),
    Ping,
    End,
}

/// What a [`SessionAction`] stands for.
#[verifier::ext_equal]
pub enum SessionActionView {
    Wait,
    Handle(ServerMessage),
    Send(PlayerMessageView),
    Ping,
    End,
}

impl View for SessionAction {
    type V = SessionActionView;

    open spec fn view(&self) -> SessionActionView {
        match *self {
            SessionAction::Wait => SessionActionView::Wait,
            SessionAction::Handle(message) => SessionActionView::Handle(message),
            SessionAction::Send(message) => SessionActionView::Send(message@),
            SessionAction::Ping => SessionActionView::Ping,
            SessionAction::End => SessionActionView::End,
        }
    }
}

/// An open connection: where to, when something last came in over it, and which configuration it
/// has announced. Moments are in nanoseconds on a clock that never runs backwards.
#[derive(Debug)]
pub struct Session {
    pub url: String,
    pub last_seen: u128,
    pub seen_epoch: u64,
}

/// A connection over which the screen is being announced.
#[derive(Debug)]
pub struct Opening {
    pub url: String,
    pub seen_epoch: u64,
}

impl Opening {
    /// The connection to a server, over which a screen with such a channel is being announced.
    pub open spec fn to(url: String, control: ControlView) -> Self {
        Opening { url, seen_epoch: control.config_epoch }
    }

    /// The session, once the hello has gone out.
    pub open spec fn session_from(self, now: u128) -> Session {
        Session { url: self.url, last_seen: now, seen_epoch: self.seen_epoch }
    }

    /// The session, once the hello has gone out. Silence counts from here: a hello that was slow
    /// to go out is none.
    pub fn announced(self, now: u128) -> (session: Session)
        ensures
            session == (Session { url: self.url, last_seen: now, seen_epoch: self.seen_epoch }),
            session == self.session_from(now),
    {
        Session { url: self.url, last_seen: now, seen_epoch: self.seen_epoch }
    }
}

impl Session {
    /// What a session does about an event.
    pub open spec fn answer(
        self,
        event: SessionEvent,
        state: AppState,
        now: u128,
    ) -> SessionActionView {
        match event {
            SessionEvent::Text(Some(message)) => SessionActionView::Handle(message),
            SessionEvent::Text(None) => SessionActionView::Wait,
            SessionEvent::Alive => SessionActionView::Wait,
            SessionEvent::Frame => SessionActionView::Wait,
            SessionEvent::Gone => SessionActionView::End,
            SessionEvent::Outbound(message) => SessionActionView::Send(message@),
            SessionEvent::HeartbeatDue { free_bytes } => SessionActionView::Send(
                spec_heartbeat(state, free_bytes, now),
            ),
            SessionEvent::PingDue => if now - self.last_seen > SILENCE_LIMIT {
                SessionActionView::End
            } else {
                SessionActionView::Ping
            },
            SessionEvent::Changed => if state.config@.control_url() != Some(self.url@) {
                SessionActionView::End
            } else {
                SessionActionView::Send(spec_hello(state))
            },
            SessionEvent::Orphaned => SessionActionView::End,
            SessionEvent::SendFailed => SessionActionView::End,
        }
    }

    /// What an event makes of a session.
    pub open spec fn behind(self, event: SessionEvent, control: ControlView, now: u128) -> Session {
        match event {
            SessionEvent::Text(_) => Session { last_seen: now, ..self },
            SessionEvent::Alive => Session { last_seen: now, ..self },
            SessionEvent::Changed => Session { seen_epoch: control.config_epoch, ..self },
            _ => self,
        }
    }

    /// Whether the configuration changed since the session last looked.
    pub open spec fn spec_has_news(self, control: ControlView) -> bool {
        self.seen_epoch != control.config_epoch
    }

    /// The beginning of a session on a connection that has just been opened: it announces the
    /// screen. The session begins with [`Opening::announced`].
    ///
    /// Any config change that happened before this hello is already accounted for. Otherwise,
    /// provisioning applied while the socket was still dialling would make the screen send a
    /// second hello carrying exactly what the first one said, which brings back a second assign.
    pub fn open(
        url: String,
        state: &AppState,
        control: &ControlHandle,
    ) -> (opened: (Opening, PlayerMessage))
        ensures
            opened.0 == (Opening { url, seen_epoch: control.config_epoch }),
            opened.0 == Opening::to(url, control@),
            opened.1@ == spec_hello(*state),
    {
        (Opening { url, seen_epoch: control.config_epoch }, hello(state))
    }

    /// Whether the configuration changed since the session last looked.
    pub fn has_news(&self, control: &ControlHandle) -> (news: bool)
        ensures
            news == self.spec_has_news(control@),
    {
        self.seen_epoch != control.config_epoch
    }

    /// Goes on with what happened.
    pub fn step(
        &mut self,
        event: SessionEvent,
        state: &AppState,
        control: &ControlHandle,
        now: u128,
    ) -> (action: SessionAction)
        ensures
            action@ == old(self).answer(event, *state, now),
            *final(self) == old(self).behind(event, control@, now),
    {
        match event {
            SessionEvent::Text(message) => {
                self.last_seen = now;
                match message {
                    Some(message) => SessionAction::Handle(message),
                    // One bad message from the dashboard must not take a store offline.
                    None => SessionAction::Wait,
                }
            },
            SessionEvent::Alive => {
                self.last_seen = now;
                SessionAction::Wait
            },
            SessionEvent::Frame => SessionAction::Wait,
            SessionEvent::Gone => SessionAction::End,
            SessionEvent::Outbound(message) => SessionAction::Send(message),
            SessionEvent::HeartbeatDue { free_bytes } => {
                SessionAction::Send(heartbeat_message(state, free_bytes, now))
            },
            SessionEvent::PingDue => {
                if now.saturating_sub(self.last_seen) > SILENCE_LIMIT {
                    SessionAction::End
                } else {
                    SessionAction::Ping
                }
            },
            SessionEvent::Changed => {
                self.seen_epoch = control.config_epoch;
                let url = state.config.snapshot().control_url();
                if !opt_text_eq(borrow_opt(&url), Some(self.url.as_str())) {
                    SessionAction::End
                } else {
                    // Same server, new identity. Re-announce so the dashboard moves this screen
                    // to its new store and pushes that store's campaign.
                    SessionAction::Send(hello(state))
                }
            },
            SessionEvent::Orphaned => SessionAction::End,
            SessionEvent::SendFailed => SessionAction::End,
        }
    }
}

// -------------------------------------------------------------------- commands

/// A video that the server wants on screen.
#[derive(Debug)]
pub struct Assignment {
    pub video_id: String,
    pub url: String,
    pub sha256: String,
    pub size_bytes: u64,
    pub group_id: Option<String>,
    pub start_epoch_ms: Option<i64>,
}

/// What a message asks of the screen.
#[derive(Debug)]
pub enum Command {
    Nothing,
    Assign(Assignment),
    /// Rebuild the player.
    Reload,
    /// Show this name.
    Identify(String),
    /// Read the log and send it.
    SendLogs,
    Configure { store_id: Option<String>, device_name: Option<String> },
    /// Restart the app. Rebooting a shop's PC from a dashboard would be a much bigger hammer than
    /// whoever clicked it expects.
    Restart,
}

/// Whether a command is what a message asks for.
pub open spec fn carries_out(state: AppState, message: ServerMessage, command: Command) -> bool {
    match message {
        ServerMessage::Assign { video_id, url, sha256, size_bytes, group_id, start_epoch_ms } => {
            command == Command::Assign(
                Assignment { video_id, url, sha256, size_bytes, group_id, start_epoch_ms },
            )
        },
        ServerMessage::Reload => command == Command::Reload,
        ServerMessage::Identify => {
            command matches Command::Identify(name) && name@ == state.config@.display_name()
        },
        ServerMessage::Reboot => command == Command::Restart,
        ServerMessage::GetLogs => command == Command::SendLogs,
        ServerMessage::Configure { store_id, device_name } => {
            command == (Command::Configure { store_id, device_name })
        },
        ServerMessage::TimeResponse { .. } => command == Command::Nothing,
        ServerMessage::Unknown => command == Command::Nothing,
    }
}

/// What a message asks of the screen.
pub fn handle_message(state: &AppState, message: ServerMessage) -> (command: Command)
    ensures
        carries_out(*state, message, command),
{
    match message {
        ServerMessage::Assign { video_id, url, sha256, size_bytes, group_id, start_epoch_ms } => {
            Command::Assign(
                Assignment { video_id, url, sha256, size_bytes, group_id, start_epoch_ms },
            )
        },
        ServerMessage::Reload => Command::Reload,
        ServerMessage::Identify => {
            Command::Identify(state.config.snapshot().display_name().to_owned())
        },
        ServerMessage::GetLogs => Command::SendLogs,
        ServerMessage::Configure { store_id, device_name } => {
            Command::Configure { store_id, device_name }
        },
        ServerMessage::Reboot => Command::Restart,
        ServerMessage::TimeResponse { .. } => Command::Nothing,
        ServerMessage::Unknown => Command::Nothing,
    }
}

/// The tail of the log as it is sent.
pub open spec fn logs_message(state: AppState, tail: Seq<char>, truncated: bool) -> PlayerMessageView {
    PlayerMessageView::Logs { device_id: state.config@.device_id, text: tail, truncated }
}

/// Sends the tail of the log.
pub fn send_logs(
    state: &AppState,
    control: &mut ControlHandle,
    tail: String,
    truncated: bool,
) -> (queued: bool)
    ensures
        final(control)@ == old(control)@.sent(
            PlayerMessageView::Logs {
                device_id: state.config@.device_id,
                text: tail@,
                truncated,
            },
        ),
        final(control)@ == old(control)@.sent(logs_message(*state, tail@, truncated)),
        queued == old(control).connected,
{
    let device_id = state.config.snapshot().device_id;
    control.send(PlayerMessage::Logs { device_id, text: tail, truncated })
}

/// Applies provisioning, and lets the channel know if anything changed.
fn provision(
    state: &mut AppState,
    control: &mut ControlHandle,
    server: Option<&str>,
    device_name: Option<&str>,
    store_id: Option<&str>,
) -> (changed: bool)
    requires
        old(control).config_epoch < u64::MAX,
    ensures
        provisioned(
            *old(state),
            old(control)@,
            text::opt_str(server),
            text::opt_str(device_name),
            text::opt_str(store_id),
            *final(state),
            final(control)@,
            changed,
        ),
{
    let changed = state.config.set_provisioning(server, device_name, store_id);
    if changed {
        control.config_changed();
    }
    changed
}

/// What provisioning does: it sets what it names, and the channel learns of it if anything
/// changed. Nothing else is touched.
pub open spec fn provisioned(
    state: AppState,
    control: ControlView,
    server: Option<Seq<char>>,
    device_name: Option<Seq<char>>,
    store_id: Option<Seq<char>>,
    state_after: AppState,
    control_after: ControlView,
    changed: bool,
) -> bool {
    &&& state_after.config@ == state.config@.provisioned(server, device_name, store_id)
    &&& changed == (state_after.config@ != state.config@)
    &&& state_after == (AppState { config: state_after.config, ..state })
    &&& control_after == (if changed {
        ControlView { config_epoch: (control.config_epoch + 1) as u64, ..control }
    } else {
        control
    })
}

/// A configuration behind provisioning from the dashboard.
pub open spec fn configured(
    config: ConfigView,
    store_id: Option<Seq<char>>,
    device_name: Option<Seq<char>>,
) -> ConfigView {
    config.provisioned(None, device_name, store_id)
}

/// A configuration behind provisioning from the command line.
pub open spec fn launched_with(config: ConfigView, given: ProvisioningView) -> ConfigView {
    config.provisioned(given.server, given.name, given.store)
}

/// Provisioning from the dashboard. What is omitted is left alone.
pub fn apply_remote_configure(
    state: &mut AppState,
    control: &mut ControlHandle,
    store_id: Option<&str>,
    device_name: Option<&str>,
) -> (changed: bool)
    requires
        old(control).config_epoch < u64::MAX,
    ensures
        provisioned(
            *old(state),
            old(control)@,
            None,
            text::opt_str(device_name),
            text::opt_str(store_id),
            *final(state),
            final(control)@,
            changed,
        ),
        final(state).config@ == configured(
            old(state).config@,
            text::opt_str(store_id),
            text::opt_str(device_name),
        ),
{
    provision(state, control, None, device_name, store_id)
}

/// Provisioning from the command line, of this launch or of a second one.
pub fn apply_cli_provisioning(
    state: &mut AppState,
    control: &mut ControlHandle,
    provisioning: &Provisioning,
) -> (changed: bool)
    requires
        old(control).config_epoch < u64::MAX,
    ensures
        provisioned(
            *old(state),
            old(control)@,
            text::opt_text(provisioning.server),
            text::opt_text(provisioning.name),
            text::opt_text(provisioning.store),
            *final(state),
            final(control)@,
            changed,
        ),
        final(state).config@ == launched_with(old(state).config@, provisioning@),
{
    provision(
        state,
        control,
        borrow_opt(&provisioning.server),
        borrow_opt(&provisioning.name),
        borrow_opt(&provisioning.store),
    )
}

// ------------------------------------------------------------------- downloads

/// The quoted form in which `{:?}` shows a text.
pub uninterp spec fn debug_text(text: Seq<char>) -> Seq<char>;

/// `std::format!` with `{:?}`: a text in quotes, with whatever is not printable escaped. The
/// result is a function of the text alone; which characters are escaped, and how, is not said.
#[verifier::external_body]
fn debug_quoted(text: &str) -> (quoted: String)
    ensures
        quoted@ == debug_text(text@),
{
    format!("{text:?}")
}

/// What becomes of an assignment.
pub enum Assigned {
    /// Its id is not a usable file name.
    Refused,
    /// The video is on screen already.
    Playing,
    /// Another download is running. The assignment is dropped rather than queued; the server
    /// sends it again if the store's campaign really did change.
    Busy,
    /// It is downloaded.
    Start(DownloadRun),
}

/// The error that an id which is not a usable file name is answered with.
pub open spec fn unusable(video_id: Seq<char>) -> PlayerMessageView {
    PlayerMessageView::Error {
        code: HTTP_ERROR@,
        detail: "unusable videoId "@ + debug_text(video_id),
    }
}

/// The file that is looked for when a video is assigned: that of the video on screen, and none
/// where another one is assigned.
pub open spec fn file_looked_for(state: AppState, video_id: Seq<char>) -> Option<PathView> {
    if store::usable_id(video_id) && text::opt_text(state.inner.active_video_id) == Some(video_id) {
        Some(state.store.spec_media_file(video_id))
    } else {
        None
    }
}

/// What a path stands for, if there is one.
pub open spec fn opt_path(path: Option<StorePath>) -> Option<PathView> {
    match path {
        Some(path) => Some(path@),
        None => None,
    }
}

/// The file whose existence decides whether an assignment is for the video on screen.
pub fn assigned_file(state: &AppState, assignment: &Assignment) -> (file: Option<StorePath>)
    ensures
        match file {
            Some(file) => store::usable_id(assignment.video_id@) && text::opt_text(
                state.inner.active_video_id,
            ) == Some(assignment.video_id@) && file@ == state.store.spec_media_file(
                assignment.video_id@,
            ),
            None => !(store::usable_id(assignment.video_id@) && text::opt_text(
                state.inner.active_video_id,
            ) == Some(assignment.video_id@)),
        },
        opt_path(file) == file_looked_for(*state, assignment.video_id@),
{
    let id = match sanitize_video_id(assignment.video_id.as_str()) {
        Some(id) => id,
        None => return None,
    };
    if opt_text_eq(borrow_opt(&state.inner.active_video_id), Some(id)) {
        Some(state.store.media_file(id))
    } else {
        None
    }
}

/// What is to become of an assignment.
pub enum Decision {
    Refuse,
    KeepPlaying,
    Wait,
    Download,
}

/// What is to become of an assignment for a video, where `exists` says whether the video's file is
/// there and `downloading` whether another download is running.
pub open spec fn decision(
    video_id: Seq<char>,
    active: Option<Seq<char>>,
    exists: bool,
    downloading: bool,
) -> Decision {
    if !store::usable_id(video_id) {
        Decision::Refuse
    } else if active == Some(video_id) && exists {
        Decision::KeepPlaying
    } else if downloading {
        Decision::Wait
    } else {
        Decision::Download
    }
}

/// Decides about an assignment, where `exists` says whether [`assigned_file`] names a file that
/// is there.
pub fn on_assign(
    state: &AppState,
    control: &mut ControlHandle,
    assignment: Assignment,
    exists: bool,
) -> (assigned: Assigned)
    ensures
        ({
            let id = assignment.video_id@;
            let playing = text::opt_text(state.inner.active_video_id) == Some(id) && exists;
            if !store::usable_id(id) {
                &&& assigned is Refused
                &&& final(control)@ == old(control)@.sent(unusable(id))
            } else if playing {
                &&& assigned is Playing
                &&& final(control)@ == old(control)@
            } else if old(control).downloading {
                &&& assigned is Busy
                &&& final(control)@ == old(control)@
            } else {
                &&& assigned matches Assigned::Start(run)
                &&& run@ == RunView::of(assignment)
                &&& run.request.video_id@ == assignment.video_id@
                &&& run.request.url@ == assignment.url@
                &&& run.request.sha256@ == assignment.sha256@
                &&& run.request.size_bytes == assignment.size_bytes
                &&& text::opt_text(run.group_id) == text::opt_text(assignment.group_id)
                &&& run.start_epoch_ms == assignment.start_epoch_ms
                &&& final(control)@ == (ControlView { downloading: true, ..old(control)@ })
            }
        }),
        ({
            let decision = decision(
                assignment.video_id@,
                text::opt_text(state.inner.active_video_id),
                exists,
                old(control).downloading,
            );
            &&& assigned is Refused <==> decision is Refuse
            &&& assigned is Playing <==> decision is KeepPlaying
            &&& assigned is Busy <==> decision is Wait
            &&& assigned is Start <==> decision is Download
            &&& final(control).downloading == (old(control).downloading || decision is Download)
        }),
{
    if sanitize_video_id(assignment.video_id.as_str()).is_none() {
        let mut detail = "unusable videoId ".to_owned();
        detail.append(debug_quoted(assignment.video_id.as_str()).as_str());
        report_error(control, HTTP_ERROR, detail);
        return Assigned::Refused;
    }
    let active = borrow_opt(&state.inner.active_video_id);
    if opt_text_eq(active, Some(assignment.video_id.as_str())) && exists {
        return Assigned::Playing;
    }
    if control.downloading {
        return Assigned::Busy;
    }
    control.downloading = true;
    let request = Request {
        video_id: assignment.video_id,
        url: assignment.url,
        sha256: assignment.sha256,
        size_bytes: assignment.size_bytes,
    };
    Assigned::Start(
        DownloadRun {
            request,
            group_id: assignment.group_id,
            start_epoch_ms: assignment.start_epoch_ms,
            attempt: 0,
            last_reported: None,
            phase: RunPhase::Preparing,
        },
    )
}

/// Tells the server how far a download is.
pub fn report_progress(control: &mut ControlHandle, video_id: &str, percent: u8)
    ensures
        final(control)@ == old(control)@.sent(
            PlayerMessageView::DownloadProgress { video_id: video_id@, percent },
        ),
{
    control.send(PlayerMessage::DownloadProgress { video_id: video_id.to_owned(), percent });
}

/// Tells the server what went wrong.
///
/// `NETWORK_ERROR` and `HTTP_ERROR` are load-bearing: the server matches on them to print its
/// diagnostic of an address that the players cannot reach.
pub fn report_error(control: &mut ControlHandle, code: &str, detail: String)
    ensures
        final(control)@ == old(control)@.sent(
            PlayerMessageView::Error { code: code@, detail: detail@ },
        ),
{
    control.send(PlayerMessage::Error { code: code.to_owned(), detail });
}

/// What a run of download attempts waits for.
#[derive(Debug, Clone, Copy, PartialEq, Eq, Structural)]
pub enum RunPhase {
    /// The means to download.
    Preparing,
    /// The screen to let go of its file: how often it had done so before, and how often it has
    /// been asked.
    Releasing { before: u64, polls: u32 },
    /// The end of an attempt.
    Downloading,
    /// The end of the pause between two attempts.
    Resting,
    /// The screen to have been told of the video.
    Playing,
    /// Nothing more.
    Over,
}

/// The attempts to download an assigned video. The attempts are counted from one; none has been
/// made before the first.
pub struct DownloadRun {
    pub request: Request,
    pub group_id: Option<String>,
    pub start_epoch_ms: Option<i64>,
    pub attempt: u32,
    pub last_reported: Option<u8>,
    pub phase: RunPhase,
}

/// What a [`DownloadRun`] stands for.
#[verifier::ext_equal]
pub struct RunView {
    pub request: RequestView,
    pub group_id: Option<Seq<char>>,
    pub start_epoch_ms: Option<i64>,
    pub attempt: u32,
    pub last_reported: Option<u8>,
    pub phase: RunPhase,
}

impl View for DownloadRun {
    type V = RunView;

    open spec fn view(&self) -> RunView {
        RunView {
            request: self.request@,
            group_id: text::opt_text(self.group_id),
            start_epoch_ms: self.start_epoch_ms,
            attempt: self.attempt,
            last_reported: self.last_reported,
            phase: self.phase,
        }
    }
}

/// What happened in a run.
pub enum RunEvent {
    Ready,
    /// There are no means to download.
    Unable,
    Rested,
    /// An attempt ended, with the video in place or without one.
    Ended(Result<StorePath, Failure>),
    /// The screen has been told of the video.
    Played,
}

/// What to do in a run.
pub enum RunAction {
    /// Ask the screen to let go of its file, then rest so many milliseconds.
    Release { rest_ms: u64 },
    /// Rest so many milliseconds.
    Rest { rest_ms: u64 },
    /// Make an attempt, which begins with this action.
    Attempt(Download, Action),
    /// Tell the screen to play the video.
    Play(StorePath),
    /// Give up; the screen keeps what it had.
    Stop,
    /// Nothing more: the video is on its way to the screen.
    Finish,
}

/// What a [`RunAction`] stands for.
#[verifier::ext_equal]
pub enum RunActionView {
    Release { rest_ms: u64 },
    Rest { rest_ms: u64 },
    Attempt(fetch::DownloadView, fetch::ActionView),
    Play(store::PathView),
    Stop,
    Finish,
}

impl View for RunAction {
    type V = RunActionView;

    open spec fn view(&self) -> RunActionView {
        match *self {
            RunAction::Release { rest_ms } => RunActionView::Release { rest_ms },
            RunAction::Rest { rest_ms } => RunActionView::Rest { rest_ms },
            RunAction::Attempt(download, action) => RunActionView::Attempt(download@, action@),
            RunAction::Play(file) => RunActionView::Play(file@),
            RunAction::Stop => RunActionView::Stop,
            RunAction::Finish => RunActionView::Finish,
        }
    }
}

impl RunView {
    /// The run for an assignment, before its first attempt.
    pub open spec fn of(assignment: Assignment) -> Self {
        RunView {
            request: RequestView {
                video_id: assignment.video_id@,
                url: assignment.url@,
                sha256: assignment.sha256@,
                size_bytes: assignment.size_bytes,
            },
            group_id: text::opt_text(assignment.group_id),
            start_epoch_ms: assignment.start_epoch_ms,
            attempt: 0,
            last_reported: None,
            phase: RunPhase::Preparing,
        }
    }

    /// The same run in another phase.
    pub open spec fn at(self, phase: RunPhase) -> Self {
        RunView { phase, ..self }
    }

    /// The attempts stay within their number.
    pub open spec fn wf(self) -> bool {
        match self.phase {
            RunPhase::Preparing => self.attempt == 0,
            RunPhase::Releasing { before, polls } => self.attempt == 0 && polls < RELEASE_POLLS,
            RunPhase::Downloading => 1 <= self.attempt <= DOWNLOAD_ATTEMPTS,
            RunPhase::Playing => 1 <= self.attempt <= DOWNLOAD_ATTEMPTS,
            RunPhase::Resting => 1 <= self.attempt < DOWNLOAD_ATTEMPTS,
            RunPhase::Over => self.attempt <= DOWNLOAD_ATTEMPTS,
        }
    }

    /// Whether an event answers what the run waits for.
    pub open spec fn takes(self, event: RunEvent) -> bool {
        match (self.phase, event) {
            (RunPhase::Preparing, RunEvent::Ready) => true,
            (RunPhase::Preparing, RunEvent::Unable) => true,
            (RunPhase::Releasing { .. }, RunEvent::Rested) => true,
            (RunPhase::Downloading, RunEvent::Ended(_)) => true,
            (RunPhase::Resting, RunEvent::Rested) => true,
            (RunPhase::Playing, RunEvent::Played) => true,
            _ => false,
        }
    }

    /// The next attempt.
    pub open spec fn trying(self, active: Option<Seq<char>>) -> (Self, RunActionView) {
        (
            RunView {
                attempt: (self.attempt + 1) as u32,
                last_reported: None,
                phase: RunPhase::Downloading,
                ..self
            },
            RunActionView::Attempt(
                fetch::DownloadView {
                    request: self.request,
                    active,
                    phase: fetch::PhaseView::Listing,
                },
                fetch::ActionView::ListPending,
            ),
        )
    }

    /// What the run becomes and does next, if the event answers what it waits for. The screen has
    /// to let go of its file only where that is the file to be replaced.
    pub open spec fn stepped(self, state: AppState, event: RunEvent) -> (Self, RunActionView) {
        let active = text::opt_text(state.inner.active_video_id);
        match (self.phase, event) {
            (RunPhase::Preparing, RunEvent::Unable) => (self.at(RunPhase::Over), RunActionView::Stop),
            (RunPhase::Preparing, RunEvent::Ready) => if active == Some(self.request.video_id) {
                (
                    self.at(
                        RunPhase::Releasing { before: state.inner.released_seq, polls: 0 },
                    ),
                    RunActionView::Release { rest_ms: RELEASE_POLL_MS },
                )
            } else {
                self.trying(active)
            },
            (RunPhase::Releasing { before, polls }, RunEvent::Rested) => if state.inner.released_seq
                != before || polls + 1 == RELEASE_POLLS {
                self.trying(active)
            } else {
                (
                    self.at(RunPhase::Releasing { before, polls: (polls + 1) as u32 }),
                    RunActionView::Rest { rest_ms: RELEASE_POLL_MS },
                )
            },
            (RunPhase::Downloading, RunEvent::Ended(Ok(file))) => (
                self.at(RunPhase::Playing),
                RunActionView::Play(file@),
            ),
            (RunPhase::Playing, RunEvent::Played) => (
                self.at(RunPhase::Over),
                RunActionView::Finish,
            ),
            (RunPhase::Downloading, RunEvent::Ended(Err(failure))) => if !failure.resumable
                || self.attempt == DOWNLOAD_ATTEMPTS {
                (self.at(RunPhase::Over), RunActionView::Stop)
            } else {
                (
                    self.at(RunPhase::Resting),
                    RunActionView::Rest { rest_ms: backoff(self.attempt as nat) as u64 },
                )
            },
            (RunPhase::Resting, RunEvent::Rested) => self.trying(active),
            _ => arbitrary(),
        }
    }

    /// What an event makes of the channel: a failure is reported, and the next assignment may
    /// come once the run is over, which a run with a video is when the screen has been told.
    pub open spec fn control_behind(
        self,
        state: AppState,
        control: ControlView,
        event: RunEvent,
    ) -> ControlView {
        let reported = match event {
            RunEvent::Ended(Err(failure)) => control.sent(
                PlayerMessageView::Error { code: failure.code@, detail: failure.detail@ },
            ),
            _ => control,
        };
        if self.stepped(state, event).0.phase == RunPhase::Over {
            ControlView { downloading: false, ..reported }
        } else {
            reported
        }
    }

    /// What an event makes of the configuration: a video in place is remembered.
    pub open spec fn config_behind(self, config: ConfigView, event: RunEvent) -> ConfigView {
        match event {
            RunEvent::Ended(Ok(_)) => config.playing(
                Some(self.request.video_id),
                self.group_id,
                self.start_epoch_ms,
            ),
            _ => config,
        }
    }

    /// What reaching a percentage makes of the run and of the channel.
    pub open spec fn reaching(self, control: ControlView, percent: u8) -> (Self, ControlView) {
        if self.forwards(percent) {
            (
                RunView { last_reported: Some(percent), ..self },
                control.sent(
                    PlayerMessageView::DownloadProgress {
                        video_id: self.request.video_id,
                        percent,
                    },
                ),
            )
        } else {
            (self, control)
        }
    }

    /// Whether a percentage is forwarded: every tenth, once.
    pub open spec fn forwards(self, percent: u8) -> bool {
        percent % PROGRESS_STEP == 0 && self.last_reported != Some(percent)
    }
}

impl DownloadRun {
    /// Whether an event answers what the run waits for.
    pub fn takes(&self, event: &RunEvent) -> (yes: bool)
        ensures
            yes == self@.takes(*event),
    {
        match (self.phase, event) {
            (RunPhase::Preparing, RunEvent::Ready) => true,
            (RunPhase::Preparing, RunEvent::Unable) => true,
            (RunPhase::Releasing { .. }, RunEvent::Rested) => true,
            (RunPhase::Downloading, RunEvent::Ended(_)) => true,
            (RunPhase::Resting, RunEvent::Rested) => true,
            (RunPhase::Playing, RunEvent::Played) => true,
            _ => false,
        }
    }

    /// Forwards how far the attempt is, if it is due.
    pub fn progress(&mut self, control: &mut ControlHandle, percent: u8)
        ensures
            old(self)@.forwards(percent) ==> {
                &&& final(self)@ == (RunView { last_reported: Some(percent), ..old(self)@ })
                &&& final(control)@ == old(control)@.sent(
                    PlayerMessageView::DownloadProgress {
                        video_id: old(self)@.request.video_id,
                        percent,
                    },
                )
            },
            !old(self)@.forwards(percent) ==> {
                &&& final(self)@ == old(self)@
                &&& final(control)@ == old(control)@
            },
            (final(self)@, final(control)@) == old(self)@.reaching(old(control)@, percent),
    {
        let repeated = match self.last_reported {
            Some(last) => last == percent,
            None => false,
        };
        if percent % PROGRESS_STEP == 0 && !repeated {
            self.last_reported = Some(percent);
            report_progress(control, self.request.video_id.as_str(), percent);
        }
    }

    /// The next attempt.
    fn trying(&mut self, state: &AppState) -> (action: RunAction)
        requires
            old(self).attempt < u32::MAX,
        ensures
            (final(self)@, action@) == old(self)@.trying(
                text::opt_text(state.inner.active_video_id),
            ),
    {
        self.attempt = self.attempt + 1;
        self.last_reported = None;
        self.phase = RunPhase::Downloading;
        let (download, action) = Download::new(self.request.clone(), state.active_video_id());
        RunAction::Attempt(download, action)
    }

    /// Goes on once it is known how the last action went.
    pub fn step(
        &mut self,
        state: &mut AppState,
        control: &mut ControlHandle,
        event: RunEvent,
    ) -> (action: RunAction)
        requires
            old(self)@.wf(),
            old(self)@.takes(event),
        ensures
            (final(self)@, action@) == old(self)@.stepped(*old(state), event),
            final(self)@.wf(),
            final(control)@ == old(self)@.control_behind(*old(state), old(control)@, event),
            final(state).config@ == old(self)@.config_behind(old(state).config@, event),
            *final(state) == (AppState { config: final(state).config, ..*old(state) }),
    {
        let action = match (self.phase, event) {
            (RunPhase::Preparing, RunEvent::Unable) => {
                self.phase = RunPhase::Over;
                RunAction::Stop
            },
            (RunPhase::Preparing, RunEvent::Ready) => {
                // Re-downloading the same video means deleting the file the webview is playing,
                // and Windows refuses to delete an open file. Ask for it back first.
                if opt_text_eq(
                    borrow_opt(&state.inner.active_video_id),
                    Some(self.request.video_id.as_str()),
                ) {
                    self.phase = RunPhase::Releasing { before: state.released_seq(), polls: 0 };
                    RunAction::Release { rest_ms: RELEASE_POLL_MS }
                } else {
                    self.trying(state)
                }
            },
            (RunPhase::Releasing { before, polls }, RunEvent::Rested) => {
                if state.released_seq() != before || polls + 1 == RELEASE_POLLS {
                    self.trying(state)
                } else {
                    self.phase = RunPhase::Releasing { before, polls: polls + 1 };
                    RunAction::Rest { rest_ms: RELEASE_POLL_MS }
                }
            },
            (RunPhase::Downloading, RunEvent::Ended(Ok(file))) => {
                state.config.set_current_video(
                    Some(self.request.video_id.as_str()),
                    borrow_opt(&self.group_id),
                    self.start_epoch_ms,
                );
                self.phase = RunPhase::Playing;
                RunAction::Play(file)
            },
            (RunPhase::Playing, RunEvent::Played) => {
                self.phase = RunPhase::Over;
                RunAction::Finish
            },
            (RunPhase::Downloading, RunEvent::Ended(Err(failure))) => {
                report_error(control, failure.code, failure.detail);
                if !failure.resumable || self.attempt == DOWNLOAD_ATTEMPTS {
                    self.phase = RunPhase::Over;
                    RunAction::Stop
                } else {
                    self.phase = RunPhase::Resting;
                    RunAction::Rest { rest_ms: backoff_ms(self.attempt) }
                }
            },
            (RunPhase::Resting, RunEvent::Rested) => self.trying(state),
            _ => vstd::pervasive::unreached(),
        };
        if self.phase == RunPhase::Over {
            control.downloading = false;
        }
        action
    }
}

} // verus!
