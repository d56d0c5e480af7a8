//! Shared state and the commands the webview calls.
//!
//! Everything that is not the video element itself lives on this side. The frontend is a display
//! and a set of media-element controls; it owns no state that matters if it is reloaded.

use vstd::prelude::*;
use vstd::string::*;

use crate::config::{copy_opt, ConfigStore};
use crate::logs::Level;
use crate::media_server::MediaServer;
use crate::store;
use crate::store::{video_id_of, DirEntry, EntryView, MediaStore, PathView, StorePath};
use crate::text::text_eq;

verus! {

/// A video to play, and where the webview finds it.
#[derive(Debug)]
pub struct MediaRef {
    pub video_id: String,
    pub url: String,
}

/// What a [`MediaRef`] stands for.
#[verifier::ext_equal]
pub struct MediaRefView {
    pub video_id: Seq<char>,
    pub url: Seq<char>,
}

impl View for MediaRef {
    type V = MediaRefView;

    open spec fn view(&self) -> MediaRefView {
        MediaRefView { video_id: self.video_id@, url: self.url@ }
    }
}

impl Clone for MediaRef {
    fn clone(&self) -> (copy: Self)
        ensures
            copy == *self,
    {
        MediaRef { video_id: self.video_id.clone(), url: self.url.clone() }
    }
}

/// What to show where there is nothing to play.
#[derive(Debug)]
pub struct Notice {
    pub title: String,
    pub detail: String,
}

/// What a [`Notice`] stands for.
#[verifier::ext_equal]
pub struct NoticeView {
    pub title: Seq<char>,
    pub detail: Seq<char>,
}

impl View for Notice {
    type V = NoticeView;

    open spec fn view(&self) -> NoticeView {
        NoticeView { title: self.title@, detail: self.detail@ }
    }
}

impl Clone for Notice {
    fn clone(&self) -> (copy: Self)
        ensures
            copy == *self,
    {
        Notice { title: self.title.clone(), detail: self.detail.clone() }
    }
}

/// What the webview starts with.
#[derive(Debug)]
pub struct Bootstrap {
    pub media: Option<MediaRef>,
    pub notice: Option<Notice>,
}

/// What a [`Bootstrap`] stands for.
#[verifier::ext_equal]
pub struct BootstrapView {
    pub media: Option<MediaRefView>,
    pub notice: Option<NoticeView>,
}

impl View for Bootstrap {
    type V = BootstrapView;

    open spec fn view(&self) -> BootstrapView {
        BootstrapView {
            media: match self.media {
                Some(media) => Some(media@),
                None => None,
            },
            notice: match self.notice {
                Some(notice) => Some(notice@),
                None => None,
            },
        }
    }
}

/// How playback stands.
#[derive(Clone, Copy, Debug, PartialEq, Eq, Structural)]
pub struct PlaybackSnapshot {
    pub playing: bool,
    pub position_ms: i64,
}

impl Default for PlaybackSnapshot {
    fn default() -> (idle: Self)
        ensures
            idle == (PlaybackSnapshot { playing: false, position_ms: 0 }),
    {
        PlaybackSnapshot { playing: false, position_ms: 0 }
    }
}

/// What the screen is doing.
#[derive(Debug)]
pub struct Inner {
    pub active_video_id: Option<String>,
    pub playback: PlaybackSnapshot,
    /// Bumped every time the webview confirms it has let go of its file. A download waits on
    /// this before promoting over a file Windows would otherwise refuse to touch.
    pub released_seq: u64,
}

impl Default for Inner {
    fn default() -> (idle: Self)
        ensures
            idle.active_video_id is None,
            idle.playback == (PlaybackSnapshot { playing: false, position_ms: 0 }),
            idle.released_seq == 0,
    {
        Inner { active_video_id: None, playback: PlaybackSnapshot::default(), released_seq: 0 }
    }
}

/// Everything the screen knows. Moments are in nanoseconds on a clock that never runs backwards.
pub struct AppState {
    pub store: MediaStore,
    pub media_server: MediaServer,
    pub config: ConfigStore,
    pub started_at: u128,
    pub inner: Inner,
}

/// The number of milliseconds between two moments, as far as 64 bits hold it.
pub open spec fn millis_between(earlier: u128, later: u128) -> nat {
    if later < earlier {
        0
    } else {
        ((later - earlier) as nat / 1_000_000) % 0x1_0000_0000_0000_0000
    }
}

/// What the webview shows where there is no video in `media_dir`.
pub open spec fn no_campaign(media_dir: Seq<char>) -> NoticeView {
    NoticeView {
        title: "Sem campanha"@,
        detail: "Nenhum vídeo disponível. Coloque um arquivo .mp4 em "@ + media_dir
            + " ou provisione a tela com um servidor."@,
    }
}

impl AppState {
    /// A video as the webview is told of it, unless its file has no URL.
    pub open spec fn media_ref(
        self,
        file: PathView,
        modified: Option<i128>,
    ) -> Option<MediaRefView> {
        match self.media_server.spec_url_for(file, modified) {
            Some(url) => Some(MediaRefView { video_id: store::stem(file.name), url }),
            None => None,
        }
    }

    /// What the webview starts with, given the listing of the media directory, when its newest
    /// file was last changed, and the directory's full path: the newest video, or word that there
    /// is none.
    pub open spec fn spec_bootstrap(
        self,
        entries: Seq<EntryView>,
        modified: Option<i128>,
        media_dir: Seq<char>,
    ) -> BootstrapView {
        let files = store::oldest_first(entries);
        if files.len() > 0 {
            BootstrapView {
                media: self.media_ref(
                    PathView { dir: self.store.media_dir@, name: files.last().name },
                    modified,
                ),
                notice: None,
            }
        } else {
            BootstrapView { media: None, notice: Some(no_campaign(media_dir)) }
        }
    }

    /// With this video on screen.
    pub open spec fn switched(self, video_id: String) -> Self {
        AppState { inner: Inner { active_video_id: Some(video_id), ..self.inner }, ..self }
    }

    /// With the file on screen let go of once more.
    pub open spec fn released(self) -> Self {
        AppState {
            inner: Inner { released_seq: (self.inner.released_seq + 1) as u64, ..self.inner },
            ..self
        }
    }

    /// With playback as reported.
    pub open spec fn reported(self, playing: bool, position_ms: i64) -> Self {
        AppState {
            inner: Inner { playback: PlaybackSnapshot { playing, position_ms }, ..self.inner },
            ..self
        }
    }

    /// Whether nothing has happened on a screen yet.
    pub open spec fn is_idle(self) -> bool {
        &&& self.inner.active_video_id is None
        &&& self.inner.playback == (PlaybackSnapshot { playing: false, position_ms: 0 })
        &&& self.inner.released_seq == 0
    }

    /// The state of a screen that has just started.
    pub fn new(
        store: MediaStore,
        media_server: MediaServer,
        config: ConfigStore,
        started_at: u128,
    ) -> (state: Self)
        ensures
            state.store == store,
            state.media_server == media_server,
            state.config == config,
            state.started_at == started_at,
            state.inner.active_video_id is None,
            state.inner.playback == (PlaybackSnapshot { playing: false, position_ms: 0 }),
            state.inner.released_seq == 0,
            state.is_idle(),
    {
        AppState { store, media_server, config, started_at, inner: Inner::default() }
    }

    /// How long the screen has been running.
    pub fn uptime_ms(&self, now: u128) -> (uptime: u64)
        ensures
            uptime == millis_between(self.started_at, now),
    {
        let elapsed: u128 = now.saturating_sub(self.started_at);
        let millis: u128 = elapsed / 1_000_000;
        (millis % 0x1_0000_0000_0000_0000) as u64
    }

    /// The video on screen.
    pub fn active_video_id(&self) -> (id: Option<String>)
        ensures
            id == self.inner.active_video_id,
    {
        copy_opt(&self.inner.active_video_id)
    }

    /// How playback stood when the webview last reported it.
    pub fn playback(&self) -> (playback: PlaybackSnapshot)
        ensures
            playback == self.inner.playback,
    {
        self.inner.playback
    }

    /// How often the webview has let go of its file.
    pub fn released_seq(&self) -> (seq: u64)
        ensures
            seq == self.inner.released_seq,
    {
        self.inner.released_seq
    }

    /// What to tell the screen so that it plays a file, which was last changed at `modified`.
    /// The frontend answers with `media_switched`, and only then is the previous file safe to
    /// delete.
    pub fn play(&self, file: &StorePath, modified: Option<i128>) -> (media: Option<MediaRef>)
        ensures
            match media {
                Some(media) => self.media_ref(file@, modified) == Some(media@),
                None => self.media_ref(file@, modified) is None,
            },
    {
        match self.media_server.url_for(file, modified) {
            Some(url) => Some(MediaRef { video_id: video_id_of(file), url }),
            None => None,
        }
    }
}

// ------------------------------------------------------------------- commands

/// What the webview starts with. `modified` is when the newest file of the listing was last
/// changed, as far as that is known.
pub fn bootstrap(
    state: &AppState,
    entries: &Vec<DirEntry>,
    modified: Option<i128>,
    media_dir: &str,
) -> (bootstrap: Bootstrap)
    ensures
        bootstrap@ == state.spec_bootstrap(store::listing(entries@), modified, media_dir@),
{
    match state.store.newest_media(entries) {
        Some(file) => Bootstrap { media: state.play(&file, modified), notice: None },
        None => {
            let mut detail =
                "Nenhum vídeo disponível. Coloque um arquivo .mp4 em ".to_owned();
            detail.append(media_dir);
            detail.append(" ou provisione a tela com um servidor.");
            Bootstrap {
                media: None,
                notice: Some(Notice { title: "Sem campanha".to_owned(), detail }),
            }
        },
    }
}

/// The webview now holds this video's file open. Anything it replaced can be deleted: the
/// listed files of other videos are what retention deletes.
pub fn media_switched(
    state: &mut AppState,
    video_id: String,
    entries: &Vec<DirEntry>,
) -> (outdated: Vec<StorePath>)
    ensures
        *final(state) == (AppState {
            inner: Inner { active_video_id: Some(video_id), ..old(state).inner },
            ..*old(state)
        }),
        *final(state) == old(state).switched(video_id),
        store::paths(outdated@) == old(state).store.inactive_files(
            Some(video_id@),
            store::listing(entries@),
        ),
{
    let outdated = state.store.retain_only(video_id.as_str(), entries);
    state.inner.active_video_id = Some(video_id);
    outdated
}

/// The webview has let go of its file, so a promote or delete over it can proceed.
pub fn media_released(state: &mut AppState)
    requires
        old(state).inner.released_seq < u64::MAX,
    ensures
        *final(state) == (AppState {
            inner: Inner {
                released_seq: (old(state).inner.released_seq + 1) as u64,
                ..old(state).inner
            },
            ..*old(state)
        }),
        *final(state) == old(state).released(),
{
    state.inner.released_seq = state.inner.released_seq + 1;
}

/// The webview says how playback stands.
pub fn report_playback(state: &mut AppState, playing: bool, position_ms: i64)
    ensures
        *final(state) == (AppState {
            inner: Inner {
                playback: PlaybackSnapshot { playing, position_ms },
                ..old(state).inner
            },
            ..*old(state)
        }),
        *final(state) == old(state).reported(playing, position_ms),
{
    state.inner.playback = PlaybackSnapshot { playing, position_ms };
}

/// The level of a line that the webview sends, by its letter.
pub open spec fn ui_level(letter: Seq<char>) -> Level {
    if letter == "e"@ {
        Level::Error
    } else if letter == "w"@ {
        Level::Warn
    } else if letter == "d"@ {
        Level::Debug
    } else {
        Level::Info
    }
}

/// The message of a line that the webview sends, marked as the webview's.
pub open spec fn ui_message(message: Seq<char>) -> Seq<char> {
    "[ui] "@ + message
}

/// A line that the webview sends: its level, and its message marked as the webview's.
pub fn ui_log(level: &str, message: &str) -> (line: (Level, String))
    ensures
        line.0 == ui_level(level@),
        line.1@ == "[ui] "@ + message@,
        line.1@ == ui_message(message@),
{
    let level = if text_eq(level, "e") {
        Level::Error
    } else if text_eq(level, "w") {
        Level::Warn
    } else if text_eq(level, "d") {
        Level::Debug
    } else {
        Level::Info
    };
    let mut marked = "[ui] ".to_owned();
    marked.append(message);
    (level, marked)
}

// ----------------------------------------------------------------------- laws

/// A screen starts with a video or with a notice: the newest video where there is one, and
/// otherwise word that there is none.
pub proof fn law_a_screen_starts_with_a_video_or_a_notice(
    state: AppState,
    entries: Seq<EntryView>,
    modified: Option<i128>,
    media_dir: Seq<char>,
)
    requires
        forall|i: int|
            0 <= i < store::oldest_first(entries).len() ==> !store::is_dots(
                (#[trigger] store::oldest_first(entries)[i]).name,
            ),
    ensures
        ({
            let bootstrap = state.spec_bootstrap(entries, modified, media_dir);
            let files = store::oldest_first(entries);
            &&& bootstrap.media is Some <==> files.len() > 0
            &&& bootstrap.notice is Some <==> files.len() == 0
            &&& bootstrap.media matches Some(media) ==> media.video_id == store::stem(
                files.last().name,
            )
        }),
{
    let files = store::oldest_first(entries);
    if files.len() > 0 {
        assert(files[files.len() - 1] == files.last());
    }
}

/// The uptime is the number of whole milliseconds since the start, as far as 64 bits hold it.
pub proof fn law_the_uptime_counts_milliseconds(started_at: u128, millis: u64, rest: u128)
    requires
        rest < 1_000_000,
        started_at + millis * 1_000_000 + rest <= u128::MAX,
    ensures
        millis_between(started_at, (started_at + millis * 1_000_000 + rest) as u128) == millis,
{
    let later = (started_at + millis * 1_000_000 + rest) as u128;
    assert(later - started_at == millis * 1_000_000 + rest);
    assert((millis * 1_000_000 + rest) / 1_000_000 == millis);
}

/// What the webview reports is what the state says, and nothing else changes with it: the video it
/// switched to, one more release of its file, how it plays and where.
pub proof fn law_the_state_says_what_was_reported(
    state: AppState,
    video_id: String,
    playing: bool,
    position_ms: i64,
)
    requires
        state.inner.released_seq < u64::MAX,
    ensures
        state.switched(video_id).inner.active_video_id == Some(video_id),
        state.switched(video_id).inner.playback == state.inner.playback,
        state.switched(video_id).inner.released_seq == state.inner.released_seq,
        state.released().inner.released_seq == state.inner.released_seq + 1,
        state.released().inner.active_video_id == state.inner.active_video_id,
        state.released().inner.playback == state.inner.playback,
        state.reported(playing, position_ms).inner.playback.playing == playing,
        state.reported(playing, position_ms).inner.playback.position_ms == position_ms,
        state.reported(playing, position_ms).inner.active_video_id == state.inner.active_video_id,
        state.reported(playing, position_ms).inner.released_seq == state.inner.released_seq,
        state.switched(video_id).config == state.config,
        state.released().config == state.config,
        state.reported(playing, position_ms).config == state.config,
        state.switched(video_id).started_at == state.started_at,
        state.released().started_at == state.started_at,
        state.reported(playing, position_ms).started_at == state.started_at,
{
}

/// The screen starts with the newest file's own id and URL, and with the directory's own path in
/// the notice where there is no file.
pub proof fn law_what_a_screen_starts_with(
    state: AppState,
    entries: Seq<EntryView>,
    modified: Option<i128>,
    media_dir: Seq<char>,
)
    ensures
        ({
            let start = state.spec_bootstrap(entries, modified, media_dir);
            let files = store::oldest_first(entries);
            &&& start.media matches Some(media) ==> {
                &&& files.len() > 0
                &&& media.video_id == store::stem(files[files.len() - 1].name)
                &&& Some(media.url) == state.media_server.spec_url_for(
                    PathView { dir: state.store.media_dir@, name: files[files.len() - 1].name },
                    modified,
                )
            }
            &&& start.notice matches Some(notice) ==> {
                &&& files.len() == 0
                &&& notice.title == "Sem campanha"@
                &&& notice.detail == "Nenhum vídeo disponível. Coloque um arquivo .mp4 em "@
                    + media_dir + " ou provisione a tela com um servidor."@
            }
        }),
{
}

/// A video is handed to the screen under its own id, with the URL of its own file.
pub proof fn law_a_video_is_handed_over_under_its_id(
    state: AppState,
    file: PathView,
    modified: Option<i128>,
)
    ensures
        state.media_ref(file, modified) is Some <==> state.media_server.spec_url_for(
            file,
            modified,
        ) is Some,
        state.media_ref(file, modified) matches Some(media) ==> media.video_id == store::stem(
            file.name,
        ) && Some(media.url) == state.media_server.spec_url_for(file, modified),
{
}

/// No time has passed before the start.
pub proof fn law_the_uptime_is_never_negative(started_at: u128, now: u128)
    requires
        now <= started_at,
    ensures
        millis_between(started_at, now) == 0,
{
}

/// The letters of the webview's levels; any other is information.
pub proof fn law_the_levels_of_the_webview(letter: Seq<char>)
    ensures
        ui_level("e"@) == Level::Error,
        ui_level("w"@) == Level::Warn,
        ui_level("d"@) == Level::Debug,
        letter != "e"@ && letter != "w"@ && letter != "d"@ ==> ui_level(letter) == Level::Info,
{
    reveal_strlit("e");
    reveal_strlit("w");
    reveal_strlit("d");
    assert("e"@[0] == 'e' && "w"@[0] == 'w' && "d"@[0] == 'd');
}

/// What the webview is told is what it says.
pub proof fn law_what_the_webview_is_told_is_what_it_says(
    media: MediaRef,
    notice: Notice,
    start: Bootstrap,
)
    ensures
        media@.video_id == media.video_id@,
        media@.url == media.url@,
        notice@.title == notice.title@,
        notice@.detail == notice.detail@,
        start.media is Some <==> start@.media is Some,
        start.media is Some ==> start@.media->0 == start.media->0@,
        start.notice is Some <==> start@.notice is Some,
        start.notice is Some ==> start@.notice->0 == start.notice->0@,
{
}

/// A screen on which nothing has happened shows no video, plays nothing, and has let go of nothing.
pub proof fn law_a_screen_starts_idle(state: AppState)
    ensures
        state.is_idle() <==> {
            &&& state.inner.active_video_id is None
            &&& !state.inner.playback.playing
            &&& state.inner.playback.position_ms == 0
            &&& state.inner.released_seq == 0
        },
{
}

/// What the webview says is written down as it is, behind the mark of the webview.
pub proof fn law_the_webview_is_marked(message: Seq<char>)
    ensures
        ui_message(message).len() == message.len() + 5,
        ui_message(message).take(5) == seq!['[', 'u', 'i', ']', ' '],
        ui_message(message).skip(5) == message,
{
    reveal_strlit("[ui] ");
    assert(ui_message(message).take(5) =~= seq!['[', 'u', 'i', ']', ' ']);
    assert(ui_message(message).skip(5) =~= message);
}

} // verus!
