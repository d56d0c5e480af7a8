//! One download, from the first look at the disk to the video in place.
//!
//! A [`Download`] decides what happens next; whoever runs it does it and says how it went. It
//! clears away the partials of other videos, makes room, reads through the digest what an
//! earlier attempt left, asks the server for the rest, and moves the file into place only once
//! its length and hash are what they should be.

use vstd::prelude::*;
use vstd::string::*;

use crate::download;
use crate::download::{
    io_failure, no_room, not_promoted, Failure, FailureView, Refusal, RefusalView, Replay,
    ReplayView, Request, RequestView, Transfer, TransferView, Trouble,
};
use crate::media_server;
use crate::media_server::Field;
use crate::store;
use crate::store::{
    DirEntry, EntryView, MediaStore, PathView, Promotion, Space, SpaceCheck, SpaceListing,
    SpaceStep, SpaceStepView, SpaceView, StorePath,
};
use crate::text;

verus! {

/// What a download waits for.
pub enum Phase {
    /// The listing of `pending`.
    Listing,
    /// The deletion of the partials of other videos.
    Sweeping,
    /// The size of the partial, for the sake of room.
    Sizing,
    /// The free space.
    Measuring(SpaceCheck),
    /// The free space, to report that no disk has so much.
    Despairing(u128),
    /// The listing of `media`.
    Surveying(SpaceListing),
    /// The deletion of a video that is not playing.
    Evicting(SpaceCheck),
    /// The size of the partial, for the sake of resuming.
    Inspecting,
    /// The deletion of a partial that is larger than the file.
    Discarding,
    /// The opening of a partial of this size.
    Opening(u64),
    /// Bytes of the partial.
    Replaying(Replay),
    /// The server's answer.
    Asking(Transfer),
    /// The partial, cut and wound to where the transfer continues.
    Cutting(Transfer),
    /// A chunk.
    Receiving(Transfer),
    /// The last bytes to reach the disk.
    Flushing(Transfer),
    /// Word whether the video has a file already.
    Finding,
    /// The move into place.
    Promoting,
    /// The deletion of a partial that failed.
    Refusing(Failure),
    /// Nothing more.
    Over,
}

/// What a [`Phase`] stands for.
#[verifier::ext_equal]
pub enum PhaseView {
    Listing,
    Sweeping,
    Sizing,
    Measuring(SpaceView),
    Despairing(u128),
    Surveying(u64),
    Evicting(SpaceView),
    Inspecting,
    Discarding,
    Opening(u64),
    Replaying(ReplayView),
    Asking(TransferView),
    Cutting(TransferView),
    Receiving(TransferView),
    Flushing(TransferView),
    Finding,
    Promoting,
    Refusing(FailureView),
    Over,
}

impl View for Phase {
    type V = PhaseView;

    open spec fn view(&self) -> PhaseView {
        match *self {
            Phase::Listing => PhaseView::Listing,
            Phase::Sweeping => PhaseView::Sweeping,
            Phase::Sizing => PhaseView::Sizing,
            Phase::Measuring(check) => PhaseView::Measuring(check@),
            Phase::Despairing(required) => PhaseView::Despairing(required),
            Phase::Surveying(listing) => PhaseView::Surveying(listing.required),
            Phase::Evicting(check) => PhaseView::Evicting(check@),
            Phase::Inspecting => PhaseView::Inspecting,
            Phase::Discarding => PhaseView::Discarding,
            Phase::Opening(len) => PhaseView::Opening(len),
            Phase::Replaying(replay) => PhaseView::Replaying(replay@),
            Phase::Asking(transfer) => PhaseView::Asking(transfer@),
            Phase::Cutting(transfer) => PhaseView::Cutting(transfer@),
            Phase::Receiving(transfer) => PhaseView::Receiving(transfer@),
            Phase::Flushing(transfer) => PhaseView::Flushing(transfer@),
            Phase::Finding => PhaseView::Finding,
            Phase::Promoting => PhaseView::Promoting,
            Phase::Refusing(failure) => PhaseView::Refusing(failure@),
            Phase::Over => PhaseView::Over,
        }
    }
}

/// What to do next.
#[derive(Debug)]
pub enum Action {
    ListPending,
    /// Delete what can be deleted of these.
    Delete(Vec<StorePath>),
    SizePartial(StorePath),
    MeasureFree,
    ListMedia,
    Evict(StorePath),
    RemovePartial(StorePath),
    /// Open a partial for reading.
    OpenPartial(StorePath),
    /// Read at most so much of it.
    ReadPartial(usize),
    Ask { url: String, headers: Vec<Field> },
    /// Open a partial for writing, creating it if need be, cut it and wind it there.
    Cut { partial: StorePath, at: u64 },
    /// Receive a chunk and write it. Before that, report the progress made so far.
    Receive { progress: Option<u8> },
    Flush,
    /// See whether there is such a file.
    Find(StorePath),
    Promote(Promotion),
    Finish(Result<StorePath, Failure>),
}

/// What an [`Action`] stands for.
#[verifier::ext_equal]
pub enum ActionView {
    ListPending,
    Delete(Seq<PathView>),
    SizePartial(PathView),
    MeasureFree,
    ListMedia,
    Evict(PathView),
    RemovePartial(PathView),
    OpenPartial(PathView),
    ReadPartial(nat),
    Ask { url: Seq<char>, headers: Seq<(Seq<char>, Seq<char>)> },
    Cut { partial: PathView, at: u64 },
    Receive { progress: Option<u8> },
    Flush,
    Find(PathView),
    Promote { remove_first: bool, source: PathView, target: PathView },
    Finish(Result<PathView, FailureView>),
}

impl View for Action {
    type V = ActionView;

    open spec fn view(&self) -> ActionView {
        match *self {
            Action::ListPending => ActionView::ListPending,
            Action::Delete(files) => ActionView::Delete(store::paths(files@)),
            Action::SizePartial(path) => ActionView::SizePartial(path@),
            Action::MeasureFree => ActionView::MeasureFree,
            Action::ListMedia => ActionView::ListMedia,
            Action::Evict(path) => ActionView::Evict(path@),
            Action::RemovePartial(path) => ActionView::RemovePartial(path@),
            Action::OpenPartial(path) => ActionView::OpenPartial(path@),
            Action::ReadPartial(want) => ActionView::ReadPartial(want as nat),
            Action::Ask { url, headers } => ActionView::Ask {
                url: url@,
                headers: media_server::fields(headers@),
            },
            Action::Cut { partial, at } => ActionView::Cut { partial: partial@, at },
            Action::Receive { progress } => ActionView::Receive { progress },
            Action::Flush => ActionView::Flush,
            Action::Find(path) => ActionView::Find(path@),
            Action::Promote(promotion) => ActionView::Promote {
                remove_first: promotion.remove_first,
                source: promotion.source@,
                target: promotion.target@,
            },
            Action::Finish(Ok(path)) => ActionView::Finish(Ok(path@)),
            Action::Finish(Err(failure)) => ActionView::Finish(Err(failure@)),
        }
    }
}

/// How it went.
#[derive(Debug)]
pub enum Event {
    Entries(Vec<DirEntry>),
    /// Nothing where there is no such file.
    Size(Option<u64>),
    Free(u64),
    Done,
    Failed(String),
    /// Nothing at the end of the file, and where reading failed.
    Read(Vec<u8>),
    Status(u16),
    Chunk(Vec<u8>),
    Ended,
    Found(bool),
}

/// What an [`Event`] stands for.
#[verifier::ext_equal]
pub enum EventView {
    Entries(Seq<EntryView>),
    Size(Option<u64>),
    Free(u64),
    Done,
    Failed(Seq<char>),
    Read(Seq<u8>),
    Status(u16),
    Chunk(Seq<u8>),
    Ended,
    Found(bool),
}

impl View for Event {
    type V = EventView;

    open spec fn view(&self) -> EventView {
        match *self {
            Event::Entries(entries) => EventView::Entries(store::listing(entries@)),
            Event::Size(len) => EventView::Size(len),
            Event::Free(free) => EventView::Free(free),
            Event::Done => EventView::Done,
            Event::Failed(error) => EventView::Failed(error@),
            Event::Read(bytes) => EventView::Read(bytes@),
            Event::Status(status) => EventView::Status(status),
            Event::Chunk(bytes) => EventView::Chunk(bytes@),
            Event::Ended => EventView::Ended,
            Event::Found(found) => EventView::Found(found),
        }
    }
}

/// A download under way.
pub struct Download {
    pub request: Request,
    /// The video that is playing, which is never evicted.
    pub active: Option<String>,
    pub phase: Phase,
}

/// What a [`Download`] stands for.
#[verifier::ext_equal]
pub struct DownloadView {
    pub request: RequestView,
    pub active: Option<Seq<char>>,
    pub phase: PhaseView,
}

impl View for Download {
    type V = DownloadView;

    open spec fn view(&self) -> DownloadView {
        DownloadView {
            request: self.request@,
            active: text::opt_text(self.active),
            phase: self.phase@,
        }
    }
}

/// The header fields of a request for what is missing behind `have` bytes. The first keeps a
/// tunnel from answering with a page of its own.
pub open spec fn request_headers(have: u64) -> Seq<(Seq<char>, Seq<char>)> {
    let skip = seq![("ngrok-skip-browser-warning"@, "true"@)];
    if have > 0 {
        skip.push(("Range"@, download::range_value(have)))
    } else {
        skip
    }
}

/// The bytes on disk of a partial that may not exist.
pub open spec fn size_or_zero(len: Option<u64>) -> u64 {
    match len {
        Some(len) => len,
        None => 0,
    }
}

impl DownloadView {
    /// A download of a video that has not begun, while another one plays.
    pub open spec fn of(request: RequestView, active: Option<Seq<char>>) -> Self {
        DownloadView { request, active, phase: PhaseView::Listing }
    }

    /// The same download in another phase.
    pub open spec fn at(self, phase: PhaseView) -> Self {
        DownloadView { phase, ..self }
    }

    /// The digests cover what they claim to.
    pub open spec fn wf(self) -> bool {
        match self.phase {
            PhaseView::Opening(len) => 0 < len <= self.request.size_bytes,
            PhaseView::Replaying(replay) => replay.wf() && replay.remaining > 0,
            PhaseView::Asking(transfer) => transfer.wf(),
            PhaseView::Cutting(transfer) => transfer.wf(),
            PhaseView::Receiving(transfer) => transfer.wf(),
            PhaseView::Flushing(transfer) => transfer.wf(),
            _ => true,
        }
    }

    /// Whether an event answers what the download waits for, within what its counters can hold.
    pub open spec fn takes(self, event: EventView) -> bool {
        match (self.phase, event) {
            (PhaseView::Listing, EventView::Entries(_)) => true,
            (PhaseView::Sweeping, EventView::Done) => true,
            (PhaseView::Sizing, EventView::Size(_)) => true,
            (PhaseView::Measuring(_), EventView::Free(_)) => true,
            (PhaseView::Despairing(_), EventView::Free(_)) => true,
            (PhaseView::Surveying(_), EventView::Entries(_)) => true,
            (PhaseView::Evicting(_), EventView::Done) => true,
            (PhaseView::Inspecting, EventView::Size(_)) => true,
            (PhaseView::Discarding, EventView::Done) => true,
            (PhaseView::Opening(_), EventView::Done) => true,
            (PhaseView::Opening(_), EventView::Failed(_)) => true,
            (PhaseView::Replaying(replay), EventView::Read(bytes)) => bytes.len() <= replay.want(),
            (PhaseView::Asking(_), EventView::Status(_)) => true,
            (PhaseView::Asking(_), EventView::Failed(_)) => true,
            (PhaseView::Cutting(_), EventView::Done) => true,
            (PhaseView::Cutting(_), EventView::Failed(_)) => true,
            (PhaseView::Receiving(transfer), EventView::Chunk(bytes)) => transfer.written
                + bytes.len() <= u64::MAX,
            (PhaseView::Receiving(_), EventView::Ended) => true,
            (PhaseView::Receiving(_), EventView::Failed(_)) => true,
            (PhaseView::Flushing(_), EventView::Done) => true,
            (PhaseView::Flushing(_), EventView::Failed(_)) => true,
            (PhaseView::Finding, EventView::Found(_)) => true,
            (PhaseView::Promoting, EventView::Done) => true,
            (PhaseView::Promoting, EventView::Failed(_)) => true,
            (PhaseView::Refusing(_), EventView::Done) => true,
            _ => false,
        }
    }

    /// The end without a video.
    pub open spec fn failed(self, failure: FailureView) -> (Self, ActionView) {
        (self.at(PhaseView::Over), ActionView::Finish(Err(failure)))
    }

    /// The end without a video, behind the removal of the partial where that is called for.
    pub open spec fn refused(self, files: MediaStore, refusal: RefusalView) -> (Self, ActionView) {
        if refusal.remove_partial {
            (
                self.at(PhaseView::Refusing(refusal.failure)),
                ActionView::RemovePartial(files.spec_pending_file(self.request.video_id)),
            )
        } else {
            self.failed(refusal.failure)
        }
    }

    /// The check for room when `have` bytes are on disk; none where what is needed is more than
    /// could be counted, and thus more than any disk has.
    pub open spec fn needing(self, have: u64) -> PhaseView {
        let required = store::required_bytes(self.request.size_bytes as nat, have as nat);
        if required <= u64::MAX {
            PhaseView::Measuring(SpaceView::Unlisted { required: required as u64 })
        } else {
            PhaseView::Despairing(required as u128)
        }
    }

    /// The next step towards room.
    pub open spec fn making_room(
        self,
        files: MediaStore,
        step: SpaceStepView,
    ) -> (Self, ActionView) {
        match step {
            SpaceStepView::Done(Space::Enough) => (
                self.at(PhaseView::Inspecting),
                ActionView::SizePartial(files.spec_pending_file(self.request.video_id)),
            ),
            SpaceStepView::Done(Space::Insufficient { required_bytes, free_bytes }) => self.failed(
                download::disk_full(required_bytes as nat, free_bytes),
            ),
            SpaceStepView::List { required } => (
                self.at(PhaseView::Surveying(required)),
                ActionView::ListMedia,
            ),
            SpaceStepView::Evict { file, then } => (
                self.at(PhaseView::Evicting(then)),
                ActionView::Evict(file),
            ),
            SpaceStepView::Measure(check) => (
                self.at(PhaseView::Measuring(check)),
                ActionView::MeasureFree,
            ),
        }
    }

    /// The request for what is missing.
    pub open spec fn asking(self, transfer: TransferView) -> (Self, ActionView) {
        (
            self.at(PhaseView::Asking(transfer)),
            ActionView::Ask {
                url: self.request.url,
                headers: request_headers(transfer.written),
            },
        )
    }

    /// More of the partial, or the request for what it lacks.
    pub open spec fn replaying(self, replay: ReplayView) -> (Self, ActionView) {
        if replay.remaining > 0 {
            (self.at(PhaseView::Replaying(replay)), ActionView::ReadPartial(replay.want()))
        } else {
            self.asking(TransferView::behind(replay.covered))
        }
    }

    /// What a download does next, if the event answers what it waits for.
    pub open spec fn stepped(self, files: MediaStore, event: EventView) -> (Self, ActionView) {
        let id = self.request.video_id;
        let partial = files.spec_pending_file(id);
        match (self.phase, event) {
            (PhaseView::Listing, EventView::Entries(entries)) => (
                self.at(PhaseView::Sweeping),
                ActionView::Delete(files.stale_partials(id, entries)),
            ),
            (PhaseView::Sweeping, EventView::Done) => (
                self.at(PhaseView::Sizing),
                ActionView::SizePartial(partial),
            ),
            (PhaseView::Sizing, EventView::Size(len)) => (
                self.at(self.needing(size_or_zero(len))),
                ActionView::MeasureFree,
            ),
            (PhaseView::Despairing(required), EventView::Free(free)) => self.failed(
                download::disk_full(required as nat, free),
            ),
            (PhaseView::Measuring(check), EventView::Free(free)) => self.making_room(
                files,
                store::measured(check, free),
            ),
            (PhaseView::Surveying(required), EventView::Entries(entries)) => self.making_room(
                files,
                store::offer(required, files.inactive_files(self.active, entries)),
            ),
            (PhaseView::Evicting(check), EventView::Done) => (
                self.at(PhaseView::Measuring(check)),
                ActionView::MeasureFree,
            ),
            (PhaseView::Inspecting, EventView::Size(len)) => if size_or_zero(len) == 0 {
                self.asking(TransferView::behind(Seq::empty()))
            } else if size_or_zero(len) > self.request.size_bytes {
                (self.at(PhaseView::Discarding), ActionView::RemovePartial(partial))
            } else {
                (self.at(PhaseView::Opening(size_or_zero(len))), ActionView::OpenPartial(partial))
            },
            (PhaseView::Discarding, EventView::Done) => self.asking(
                TransferView::behind(Seq::empty()),
            ),
            (PhaseView::Opening(len), EventView::Done) => self.replaying(ReplayView::of(len)),
            (PhaseView::Replaying(replay), EventView::Read(bytes)) => self.replaying(
                replay.read(bytes),
            ),
            (PhaseView::Asking(transfer), EventView::Status(status)) => match transfer.answered(
                self.request,
                status,
            ) {
                Ok(transfer) => (
                    self.at(PhaseView::Cutting(transfer)),
                    ActionView::Cut { partial, at: transfer.written },
                ),
                Err(refusal) => self.refused(files, refusal),
            },
            (PhaseView::Cutting(transfer), EventView::Done) => (
                self.at(PhaseView::Receiving(transfer)),
                ActionView::Receive { progress: None },
            ),
            (PhaseView::Receiving(transfer), EventView::Chunk(bytes)) => (
                self.at(PhaseView::Receiving(transfer.received(self.request.size_bytes, bytes))),
                ActionView::Receive {
                    progress: transfer.progress(self.request.size_bytes, bytes),
                },
            ),
            (PhaseView::Receiving(transfer), EventView::Ended) => (
                self.at(PhaseView::Flushing(transfer)),
                ActionView::Flush,
            ),
            (PhaseView::Flushing(transfer), EventView::Done) => match transfer.judged(
                self.request,
            ) {
                None => (self.at(PhaseView::Finding), ActionView::Find(files.spec_media_file(id))),
                Some(refusal) => self.refused(files, refusal),
            },
            (PhaseView::Finding, EventView::Found(found)) => (
                self.at(PhaseView::Promoting),
                ActionView::Promote {
                    remove_first: found,
                    source: partial,
                    target: files.spec_media_file(id),
                },
            ),
            (PhaseView::Promoting, EventView::Done) => (
                self.at(PhaseView::Over),
                ActionView::Finish(Ok(files.spec_media_file(id))),
            ),
            (PhaseView::Promoting, EventView::Failed(error)) => self.failed(
                download::promote_failed(id, error),
            ),
            (PhaseView::Refusing(failure), EventView::Done) => self.failed(failure),
            (PhaseView::Opening(_), EventView::Failed(error)) => self.failed(
                download::spec_io_failure(Trouble::File, error),
            ),
            (PhaseView::Cutting(_), EventView::Failed(error)) => self.failed(
                download::spec_io_failure(Trouble::File, error),
            ),
            (_, EventView::Failed(error)) => self.failed(
                download::spec_io_failure(Trouble::Transfer, error),
            ),
            _ => arbitrary(),
        }
    }
}

/// The header fields of a request for what a transfer lacks.
fn headers_for(transfer: &Transfer) -> (headers: Vec<Field>)
    ensures
        media_server::fields(headers@) == request_headers(transfer.written),
{
    let mut headers: Vec<Field> = Vec::new();
    headers.push(("ngrok-skip-browser-warning".to_owned(), "true".to_owned()));
    match transfer.range_header() {
        Some(range) => headers.push(("Range".to_owned(), range)),
        None => {},
    }
    assert(media_server::fields(headers@) =~= request_headers(transfer.written));
    headers
}

impl Download {
    /// A download that has not begun, and what it does first.
    pub fn new(request: Request, active_video_id: Option<String>) -> (begun: (Download, Action))
        ensures
            begun.0@ == (DownloadView {
                request: request@,
                active: text::opt_text(active_video_id),
                phase: PhaseView::Listing,
            }),
            begun.1@ == ActionView::ListPending,
            begun.0@ == DownloadView::of(request@, text::opt_text(active_video_id)),
            begun.0@.wf(),
    {
        (
            Download { request, active: active_video_id, phase: Phase::Listing },
            Action::ListPending,
        )
    }

    /// Whether an event answers what the download waits for, within what its counters can hold.
    pub fn takes(&self, event: &Event) -> (yes: bool)
        ensures
            yes == self@.takes(event@),
    {
        match (&self.phase, event) {
            (Phase::Listing, Event::Entries(_)) => true,
            (Phase::Sweeping, Event::Done) => true,
            (Phase::Sizing, Event::Size(_)) => true,
            (Phase::Measuring(_), Event::Free(_)) => true,
            (Phase::Despairing(_), Event::Free(_)) => true,
            (Phase::Surveying(_), Event::Entries(_)) => true,
            (Phase::Evicting(_), Event::Done) => true,
            (Phase::Inspecting, Event::Size(_)) => true,
            (Phase::Discarding, Event::Done) => true,
            (Phase::Opening(_), Event::Done) => true,
            (Phase::Opening(_), Event::Failed(_)) => true,
            (Phase::Replaying(replay), Event::Read(bytes)) => bytes.len() <= replay.want(),
            (Phase::Asking(_), Event::Status(_)) => true,
            (Phase::Asking(_), Event::Failed(_)) => true,
            (Phase::Cutting(_), Event::Done) => true,
            (Phase::Cutting(_), Event::Failed(_)) => true,
            (Phase::Receiving(transfer), Event::Chunk(bytes)) => {
                bytes.len() as u64 <= u64::MAX - transfer.written
            },
            (Phase::Receiving(_), Event::Ended) => true,
            (Phase::Receiving(_), Event::Failed(_)) => true,
            (Phase::Flushing(_), Event::Done) => true,
            (Phase::Flushing(_), Event::Failed(_)) => true,
            (Phase::Finding, Event::Found(_)) => true,
            (Phase::Promoting, Event::Done) => true,
            (Phase::Promoting, Event::Failed(_)) => true,
            (Phase::Refusing(_), Event::Done) => true,
            _ => false,
        }
    }

    /// The same download in another phase.
    fn at(self, phase: Phase) -> (download: Self)
        ensures
            download@ == self@.at(phase@),
    {
        Download { request: self.request, active: self.active, phase }
    }

    /// The end without a video.
    fn failed(self, failure: Failure) -> (next: (Self, Action))
        ensures
            (next.0@, next.1@) == self@.failed(failure@),
    {
        (self.at(Phase::Over), Action::Finish(Err(failure)))
    }

    /// The end without a video, behind the removal of the partial where that is called for.
    fn refused(self, files: &MediaStore, refusal: Refusal) -> (next: (Self, Action))
        ensures
            (next.0@, next.1@) == self@.refused(*files, refusal@),
    {
        if refusal.remove_partial {
            let partial = files.pending_file(self.request.video_id.as_str());
            (self.at(Phase::Refusing(refusal.failure)), Action::RemovePartial(partial))
        } else {
            self.failed(refusal.failure)
        }
    }

    /// The next step towards room.
    fn making_room(self, files: &MediaStore, step: SpaceStep) -> (next: (Self, Action))
        ensures
            (next.0@, next.1@) == self@.making_room(*files, step@),
            next.0@.wf(),
    {
        match step {
            SpaceStep::Done(Space::Enough) => {
                let partial = files.pending_file(self.request.video_id.as_str());
                (self.at(Phase::Inspecting), Action::SizePartial(partial))
            },
            SpaceStep::Done(Space::Insufficient { required_bytes, free_bytes }) => {
                self.failed(no_room(required_bytes as u128, free_bytes))
            },
            SpaceStep::List(listing) => (self.at(Phase::Surveying(listing)), Action::ListMedia),
            SpaceStep::Evict { file, then } => (self.at(Phase::Evicting(then)), Action::Evict(file)),
            SpaceStep::Measure(check) => (self.at(Phase::Measuring(check)), Action::MeasureFree),
        }
    }

    /// The request for what is missing.
    fn asking(self, transfer: Transfer) -> (next: (Self, Action))
        ensures
            (next.0@, next.1@) == self@.asking(transfer@),
    {
        let url = self.request.url.clone();
        let headers = headers_for(&transfer);
        (self.at(Phase::Asking(transfer)), Action::Ask { url, headers })
    }

    /// More of the partial, or the request for what it lacks.
    fn replaying(self, replay: Replay) -> (next: (Self, Action))
        requires
            replay@.wf(),
        ensures
            (next.0@, next.1@) == self@.replaying(replay@),
            next.0@.wf(),
    {
        if replay.remaining > 0 {
            let want = replay.want();
            (self.at(Phase::Replaying(replay)), Action::ReadPartial(want))
        } else {
            self.asking(Transfer::behind(replay))
        }
    }

    /// Goes on once it is known how the last action went.
    pub fn step(self, files: &MediaStore, event: Event) -> (next: (Download, Action))
        requires
            self@.wf(),
            self@.takes(event@),
        ensures
            (next.0@, next.1@) == self@.stepped(*files, event@),
            next.0@.wf(),
    {
        let Download { request, active, phase } = self;
        let resting = Download { request, active, phase: Phase::Over };
        match (phase, event) {
            (Phase::Listing, Event::Entries(entries)) => {
                let stale = files.clear_stale_pending(
                    resting.request.video_id.as_str(),
                    &entries,
                );
                (resting.at(Phase::Sweeping), Action::Delete(stale))
            },
            (Phase::Sweeping, Event::Done) => {
                let partial = files.pending_file(resting.request.video_id.as_str());
                (resting.at(Phase::Sizing), Action::SizePartial(partial))
            },
            (Phase::Sizing, Event::Size(len)) => {
                let have: u64 = match len {
                    Some(len) => len,
                    None => 0,
                };
                let size: u64 = resting.request.size_bytes;
                let missing: u64 = size.saturating_sub(have);
                if missing <= u64::MAX - size / 2 {
                    let check = files.ensure_space_for(size, have);
                    (resting.at(Phase::Measuring(check)), Action::MeasureFree)
                } else {
                    let required: u128 = missing as u128 + (size / 2) as u128;
                    (resting.at(Phase::Despairing(required)), Action::MeasureFree)
                }
            },
            (Phase::Despairing(required), Event::Free(free)) => {
                resting.failed(no_room(required, free))
            },
            (Phase::Measuring(check), Event::Free(free)) => {
                resting.making_room(files, check.measured(free))
            },
            (Phase::Surveying(listing), Event::Entries(entries)) => {
                let step = {
                    let active = match &resting.active {
                        Some(id) => Some(id.as_str()),
                        None => None,
                    };
                    listing.listed(files, active, &entries)
                };
                resting.making_room(files, step)
            },
            (Phase::Evicting(check), Event::Done) => {
                (resting.at(Phase::Measuring(check)), Action::MeasureFree)
            },
            (Phase::Inspecting, Event::Size(len)) => {
                let have: u64 = match len {
                    Some(len) => len,
                    None => 0,
                };
                if have == 0 {
                    resting.asking(Transfer::fresh())
                } else {
                    let partial = files.pending_file(resting.request.video_id.as_str());
                    if have > resting.request.size_bytes {
                        (resting.at(Phase::Discarding), Action::RemovePartial(partial))
                    } else {
                        (resting.at(Phase::Opening(have)), Action::OpenPartial(partial))
                    }
                }
            },
            (Phase::Discarding, Event::Done) => resting.asking(Transfer::fresh()),
            (Phase::Opening(len), Event::Done) => resting.replaying(Replay::of(len)),
            (Phase::Opening(_), Event::Failed(error)) => {
                resting.failed(io_failure(Trouble::File, error))
            },
            (Phase::Replaying(replay), Event::Read(bytes)) => {
                resting.replaying(replay.read(bytes.as_slice()))
            },
            (Phase::Asking(transfer), Event::Status(status)) => {
                match transfer.answered(&resting.request, status) {
                    Ok(transfer) => {
                        let partial = files.pending_file(resting.request.video_id.as_str());
                        let at: u64 = transfer.written;
                        (resting.at(Phase::Cutting(transfer)), Action::Cut { partial, at })
                    },
                    Err(refusal) => resting.refused(files, refusal),
                }
            },
            (Phase::Asking(_), Event::Failed(error)) => {
                resting.failed(io_failure(Trouble::Transfer, error))
            },
            (Phase::Cutting(transfer), Event::Done) => {
                (resting.at(Phase::Receiving(transfer)), Action::Receive { progress: None })
            },
            (Phase::Cutting(_), Event::Failed(error)) => {
                resting.failed(io_failure(Trouble::File, error))
            },
            (Phase::Receiving(transfer), Event::Chunk(bytes)) => {
                let (transfer, progress) = transfer.received(
                    resting.request.size_bytes,
                    bytes.as_slice(),
                );
                (resting.at(Phase::Receiving(transfer)), Action::Receive { progress })
            },
            (Phase::Receiving(transfer), Event::Ended) => {
                (resting.at(Phase::Flushing(transfer)), Action::Flush)
            },
            (Phase::Receiving(_), Event::Failed(error)) => {
                resting.failed(io_failure(Trouble::Transfer, error))
            },
            (Phase::Flushing(transfer), Event::Done) => {
                match transfer.judged(&resting.request) {
                    None => {
                        let target = files.media_file(resting.request.video_id.as_str());
                        (resting.at(Phase::Finding), Action::Find(target))
                    },
                    Some(refusal) => resting.refused(files, refusal),
                }
            },
            (Phase::Flushing(_), Event::Failed(error)) => {
                resting.failed(io_failure(Trouble::Transfer, error))
            },
            (Phase::Finding, Event::Found(found)) => {
                let promotion = files.promote(resting.request.video_id.as_str(), found);
                (resting.at(Phase::Promoting), Action::Promote(promotion))
            },
            (Phase::Promoting, Event::Done) => {
                let target = files.media_file(resting.request.video_id.as_str());
                (resting.at(Phase::Over), Action::Finish(Ok(target)))
            },
            (Phase::Promoting, Event::Failed(error)) => {
                let failure = not_promoted(resting.request.video_id.as_str(), error.as_str());
                resting.failed(failure)
            },
            (Phase::Refusing(failure), Event::Done) => resting.failed(failure),
            _ => vstd::pervasive::unreached(),
        }
    }
}

} // verus!
