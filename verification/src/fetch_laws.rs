//! What a download does about each thing that can happen to it, in plain numbers, names and texts.

use vstd::prelude::*;
use vstd::seq_lib::*;
use vstd::string::*;

use crate::digest;
use crate::download::{Replay, ReplayView, RequestView, Transfer, TransferView};
use crate::fetch::{
    Action, ActionView, Download, DownloadView, Event, EventView, Phase, PhaseView,
};
use crate::media_server;
use crate::store;
use crate::store::{EntryView, MediaStore, PathView, SpaceView};
use crate::text;

verus! {

/// Whether a download ended without a video, for this reason.
pub open spec fn ends_with(
    next: (DownloadView, ActionView),
    code: Seq<char>,
    detail: Seq<char>,
    resumable: bool,
) -> bool {
    &&& next.0.phase is Over
    &&& next.1 matches ActionView::Finish(Err(failure))
    &&& failure.code == code
    &&& failure.detail == detail
    &&& failure.resumable == resumable
}

/// Whether a download removes its partial and then ends without a video, for this reason.
pub open spec fn drops_and_ends_with(
    next: (DownloadView, ActionView),
    files: MediaStore,
    code: Seq<char>,
    detail: Seq<char>,
    resumable: bool,
) -> bool {
    &&& next.1 matches ActionView::RemovePartial(path)
    &&& path.dir == files.pending_dir@
    &&& path.name == next.0.request.video_id + ".mp4"@
    &&& next.0.takes(EventView::Done)
    &&& ends_with(next.0.stepped(files, EventView::Done), code, detail, resumable)
}

/// Whether a download asks the server for everything behind `have` bytes: at the address that was
/// announced, with a range exactly where something is there.
pub open spec fn asks_behind(next: (DownloadView, ActionView), have: nat) -> bool {
    &&& next.0.phase matches PhaseView::Asking(transfer)
    &&& transfer.written == have
    &&& transfer.covered.len() == have
    &&& next.1 matches ActionView::Ask { url, headers }
    &&& url == next.0.request.url
    &&& headers.contains(("ngrok-skip-browser-warning"@, "true"@))
    &&& have > 0 ==> headers.contains(("Range"@, "bytes="@ + text::decimal(have) + "-"@))
    &&& have == 0 ==> forall|i: int| 0 <= i < headers.len() ==> (#[trigger] headers[i]).0 != "Range"@
}

/// What a download is for does not change on the way: whatever happens, the video, where it comes
/// from, what it must be and what is playing stay as they were.
pub proof fn law_a_download_keeps_its_request(
    state: DownloadView,
    files: MediaStore,
    event: EventView,
)
    requires
        state.takes(event),
    ensures
        ({
            let next = state.stepped(files, event).0;
            &&& next.request.video_id == state.request.video_id
            &&& next.request.url == state.request.url
            &&& next.request.sha256 == state.request.sha256
            &&& next.request.size_bytes == state.request.size_bytes
            &&& next.active == state.active
        }),
{
}

/// A download begins by clearing away the partials of other videos: exactly the files in `pending`
/// whose names are not its own video's go, and then it looks at its own partial.
pub proof fn law_partials_of_other_videos_go_first(
    state: DownloadView,
    files: MediaStore,
    entries: Seq<EntryView>,
    name: Seq<char>,
)
    requires
        state.phase is Listing,
    ensures
        ({
            let next = state.stepped(files, EventView::Entries(entries));
            &&& next.1 matches ActionView::Delete(list)
            &&& list.contains(PathView { dir: files.pending_dir@, name }) <==> exists|i: int|
                0 <= i < entries.len() && (#[trigger] entries[i]).is_file && entries[i].name == name
                    && store::stem(name) != state.request.video_id
            &&& forall|i: int| 0 <= i < list.len() ==> (#[trigger] list[i]).dir == files.pending_dir@
            &&& next.0.takes(EventView::Done)
            &&& next.0.stepped(files, EventView::Done).1 matches ActionView::SizePartial(path)
            &&& path.dir == files.pending_dir@
            &&& path.name == state.request.video_id + ".mp4"@
            &&& next.0.stepped(files, EventView::Done).0.phase is Sizing
        }),
{
    broadcast use group_filter_ensures;

    let id = state.request.video_id;
    let p = |e: EntryView| e.is_file && store::stem(e.name) != id;
    let kept = entries.filter(p);
    let list = files.stale_partials(id, entries);
    let path = PathView { dir: files.pending_dir@, name };
    if list.contains(path) {
        let k = choose|k: int| 0 <= k < list.len() && list[k] == path;
        assert(kept.contains(kept[k]));
        entries.lemma_filter_contains_rev(p, kept[k]);
        assert(p(kept[k]));
        let i = choose|i: int| 0 <= i < entries.len() && entries[i] == kept[k];
        assert(entries[i].is_file && entries[i].name == name);
    }
    if exists|i: int|
        0 <= i < entries.len() && (#[trigger] entries[i]).is_file && entries[i].name == name
            && store::stem(name) != id {
        let i = choose|i: int|
            0 <= i < entries.len() && (#[trigger] entries[i]).is_file && entries[i].name == name
                && store::stem(name) != id;
        assert(kept.contains(entries[i]));
        let k = choose|k: int| 0 <= k < kept.len() && kept[k] == entries[i];
        assert(list[k] == path);
    }
}

/// What is on disk already counts towards the room that a download needs. With `have` bytes of the
/// partial there, it needs what is missing and half the file again: with as much free it goes on
/// to the partial, and neither lists nor evicts anything nor reports a full disk; with less, it
/// looks for videos to evict, unless no disk could have so much.
pub proof fn law_the_partial_counts_towards_the_room(
    state: DownloadView,
    files: MediaStore,
    len: Option<u64>,
    free: u64,
)
    requires
        state.phase is Sizing,
    ensures
        ({
            let size = state.request.size_bytes as int;
            let have: int = if len is Some {
                len->0 as int
            } else {
                0
            };
            let missing: int = if size > have {
                size - have
            } else {
                0
            };
            let needed = missing + size / 2;
            let measuring = state.stepped(files, EventView::Size(len));
            let next = measuring.0.stepped(files, EventView::Free(free));
            &&& state.takes(EventView::Size(len))
            &&& measuring.1 is MeasureFree
            &&& measuring.0.takes(EventView::Free(free))
            &&& free >= needed ==> {
                &&& next.0.phase is Inspecting
                &&& next.1 matches ActionView::SizePartial(path)
                &&& path.dir == files.pending_dir@
                &&& path.name == state.request.video_id + ".mp4"@
            }
            &&& free < needed && needed <= u64::MAX ==> {
                &&& next.0.phase matches PhaseView::Surveying(required)
                &&& required == needed
                &&& next.1 is ListMedia
            }
            &&& needed > u64::MAX ==> ends_with(
                next,
                "DISK_FULL"@,
                "need "@ + text::decimal(needed as nat) + " bytes, "@ + text::decimal(free as nat)
                    + " free"@,
                false,
            )
        }),
{
}

/// Eviction goes on one video at a time for as long as it is needed, in the order of the list,
/// and only then.
pub proof fn law_eviction_goes_one_by_one(
    state: DownloadView,
    files: MediaStore,
    required: u64,
    left: Seq<PathView>,
    free: u64,
)
    requires
        state.phase == PhaseView::Measuring(SpaceView::Evicting { required, left }),
    ensures
        ({
            let next = state.stepped(files, EventView::Free(free));
            &&& state.takes(EventView::Free(free))
            &&& free >= required ==> next.0.phase is Inspecting && next.1 is SizePartial
            &&& free < required && left.len() > 0 ==> {
                &&& next.1 == ActionView::Evict(left[0])
                &&& next.0.takes(EventView::Done)
                &&& next.0.stepped(files, EventView::Done).1 is MeasureFree
                &&& next.0.stepped(files, EventView::Done).0.phase matches PhaseView::Measuring(
                    SpaceView::Evicting { required: still, left: rest },
                )
                &&& still == required
                &&& rest == left.skip(1)
            }
            &&& free < required && left.len() == 0 ==> {
                &&& next.1 is MeasureFree
                &&& forall|again: u64|
                    {
                        &&& next.0.takes(EventView::Free(again))
                        &&& ends_with(
                            #[trigger] next.0.stepped(files, EventView::Free(again)),
                            "DISK_FULL"@,
                            "need "@ + text::decimal(required as nat) + " bytes, "@
                                + text::decimal(again as nat) + " free"@,
                            false,
                        )
                    }
            }
        }),
{
    if left.len() > 0 {
        assert(left.drop_first() =~= left.skip(1));
    }
}

/// What may be evicted is every media file but the active video's, the oldest first: with none,
/// the disk is full.
pub proof fn law_only_inactive_videos_are_offered(
    state: DownloadView,
    files: MediaStore,
    required: u64,
    entries: Seq<EntryView>,
)
    requires
        state.phase == PhaseView::Surveying(required),
    ensures
        ({
            let next = state.stepped(files, EventView::Entries(entries));
            let left = files.inactive_files(state.active, entries);
            &&& state.takes(EventView::Entries(entries))
            &&& left.len() > 0 ==> {
                &&& next.1 == ActionView::Evict(left[0])
                &&& next.0.phase matches PhaseView::Evicting(
                    SpaceView::Evicting { required: still, left: rest },
                )
                &&& still == required
                &&& rest == left.skip(1)
            }
            &&& left.len() == 0 ==> {
                &&& next.1 is MeasureFree
                &&& forall|free: u64|
                    ends_with(
                        #[trigger] next.0.stepped(files, EventView::Free(free)),
                        "DISK_FULL"@,
                        "need "@ + text::decimal(required as nat) + " bytes, "@ + text::decimal(
                            free as nat,
                        ) + " free"@,
                        false,
                    )
            }
        }),
{
    let left = files.inactive_files(state.active, entries);
    if left.len() > 0 {
        assert(left.drop_first() =~= left.skip(1));
    }
}

/// A partial is resumed exactly where it is no larger than the file: one that is larger is removed,
/// and without any the transfer starts at zero.
pub proof fn law_a_partial_is_resumed_if_it_fits(
    state: DownloadView,
    files: MediaStore,
    len: Option<u64>,
)
    requires
        state.phase is Inspecting,
    ensures
        ({
            let next = state.stepped(files, EventView::Size(len));
            &&& state.takes(EventView::Size(len))
            &&& len is None || len->0 == 0 ==> asks_behind(next, 0)
            &&& len is Some && len->0 > state.request.size_bytes ==> {
                &&& next.1 matches ActionView::RemovePartial(path)
                &&& path.dir == files.pending_dir@
                &&& path.name == state.request.video_id + ".mp4"@
                &&& next.0.takes(EventView::Done)
                &&& asks_behind(next.0.stepped(files, EventView::Done), 0)
            }
            &&& len is Some && 0 < len->0 <= state.request.size_bytes ==> {
                &&& next.1 matches ActionView::OpenPartial(path)
                &&& path.dir == files.pending_dir@
                &&& path.name == state.request.video_id + ".mp4"@
                &&& next.0.takes(EventView::Done)
                &&& next.0.stepped(files, EventView::Done).0.phase matches PhaseView::Replaying(
                    replay,
                )
                &&& replay.have == len->0
                &&& replay.remaining == len->0
                &&& replay.covered.len() == 0
                &&& next.0.stepped(files, EventView::Done).1 matches ActionView::ReadPartial(want)
                &&& 0 < want <= len->0
                &&& want <= 65_536
                &&& want == len->0 || want == 65_536
            }
        }),
{
    reveal_strlit("Range");
    reveal_strlit("ngrok-skip-browser-warning");
    assert("Range"@.len() == 5 && "ngrok-skip-browser-warning"@.len() == 26);
    let skip = seq![("ngrok-skip-browser-warning"@, "true"@)];
    assert(skip[0] == ("ngrok-skip-browser-warning"@, "true"@));
}

/// What is read of a partial is hashed, behind what was hashed before, until all of it is read or
/// no more comes; then the server is asked for everything behind what was hashed.
pub proof fn law_what_is_read_is_hashed(
    state: DownloadView,
    files: MediaStore,
    replay: ReplayView,
    bytes: Seq<u8>,
)
    requires
        state.phase == PhaseView::Replaying(replay),
        state.wf(),
        state.takes(EventView::Read(bytes)),
    ensures
        ({
            let next = state.stepped(files, EventView::Read(bytes));
            &&& 0 < bytes.len() < replay.remaining ==> {
                &&& next.0.phase matches PhaseView::Replaying(after)
                &&& after.have == replay.have
                &&& after.remaining == replay.remaining - bytes.len()
                &&& after.covered == replay.covered + bytes
                &&& next.1 matches ActionView::ReadPartial(want)
                &&& 0 < want <= after.remaining
                &&& want <= 65_536
                &&& want == after.remaining || want == 65_536
            }
            &&& bytes.len() == replay.remaining ==> {
                &&& asks_behind(next, replay.have as nat)
                &&& next.0.phase->Asking_0.covered == replay.covered + bytes
            }
            &&& bytes.len() == 0 ==> {
                &&& asks_behind(next, replay.covered.len())
                &&& next.0.phase->Asking_0.covered == replay.covered
            }
        }),
{
    reveal_strlit("Range");
    reveal_strlit("ngrok-skip-browser-warning");
    assert("Range"@.len() == 5 && "ngrok-skip-browser-warning"@.len() == 26);
    let skip = seq![("ngrok-skip-browser-warning"@, "true"@)];
    assert(skip[0] == ("ngrok-skip-browser-warning"@, "true"@));
    let next = state.stepped(files, EventView::Read(bytes));
    if let ActionView::Ask { url, headers } = next.1 {
        assert(headers[0] == skip[0]);
        if headers.len() > 1 {
            assert(headers.contains(headers[1]));
        }
    }
}

/// What the server's answer makes of a transfer: a 206 continues behind what is there, a 200 starts
/// from zero, a 416 drops the partial and may be retried, and anything else is an HTTP error,
/// which may be retried exactly where the fault is the server's.
pub proof fn law_the_answer_decides(
    state: DownloadView,
    files: MediaStore,
    transfer: TransferView,
    status: u16,
)
    requires
        state.phase == PhaseView::Asking(transfer),
        state.wf(),
    ensures
        ({
            let next = state.stepped(files, EventView::Status(status));
            &&& state.takes(EventView::Status(status))
            &&& status == 206 || status == 200 ==> {
                &&& next.0.phase matches PhaseView::Cutting(after)
                &&& next.1 matches ActionView::Cut { partial, at }
                &&& partial.dir == files.pending_dir@
                &&& partial.name == state.request.video_id + ".mp4"@
                &&& at == after.written
                &&& after.last_percent == transfer.last_percent
                &&& status == 206 ==> at == transfer.written && after.covered == transfer.covered
                &&& status == 200 ==> at == 0 && after.covered.len() == 0
            }
            &&& status == 416 ==> drops_and_ends_with(
                next,
                files,
                "RANGE_REJECTED"@,
                "server rejected range at "@ + text::decimal(transfer.written as nat),
                true,
            )
            &&& status != 200 && status != 206 && status != 416 ==> ends_with(
                next,
                "HTTP_ERROR"@,
                "HTTP "@ + text::decimal(status as nat) + " for "@ + state.request.url,
                status >= 500,
            )
        }),
{
}

/// Chunks add up: what is received goes behind what was there, byte for byte, into the digest and
/// the count. The percentage that is reported is the share of the file that is there, rounded
/// down, and it is reported where it differs from the one before.
pub proof fn law_chunks_add_up(
    state: DownloadView,
    files: MediaStore,
    transfer: TransferView,
    chunk: Seq<u8>,
)
    requires
        state.phase == PhaseView::Receiving(transfer),
        state.wf(),
        transfer.written + chunk.len() <= u64::MAX,
    ensures
        ({
            let next = state.stepped(files, EventView::Chunk(chunk));
            let size = state.request.size_bytes;
            &&& state.takes(EventView::Chunk(chunk))
            &&& next.0.phase matches PhaseView::Receiving(after)
            &&& after.written == transfer.written + chunk.len()
            &&& after.covered == transfer.covered + chunk
            &&& next.1 matches ActionView::Receive { progress }
            &&& progress matches Some(percent) ==> {
                &&& size > 0
                &&& percent <= 100
                &&& percent == 100 <==> after.written >= size
                &&& percent < 100 ==> percent * size <= after.written * 100 < (percent + 1) * size
                &&& percent != transfer.last_percent
                &&& after.last_percent == percent
            }
            &&& progress is None ==> after.last_percent == transfer.last_percent
            &&& progress is None && size > 0 && after.written >= size ==> transfer.last_percent == 100
            &&& progress is None && 0 < after.written && after.written < size
                ==> transfer.last_percent * size <= after.written * 100 < (transfer.last_percent + 1)
                * size
        }),
{
    let size = state.request.size_bytes as int;
    let written = transfer.written + chunk.len();
    if 0 <= written < size {
        let percent = written * 100 / size;
        assert(0 <= percent < 100 && percent * size <= written * 100 < (percent + 1) * size)
            by (nonlinear_arith)
            requires
                0 <= written < size,
                percent == written * 100 / size,
        ;
    }
}

/// A transfer that is set up begins to receive, and one that the server has ended is judged once
/// everything has reached the disk.
pub proof fn law_a_transfer_is_judged_behind_its_end(
    state: DownloadView,
    files: MediaStore,
    transfer: TransferView,
)
    ensures
        state.phase == PhaseView::Cutting(transfer) ==> {
            let next = state.stepped(files, EventView::Done);
            &&& state.takes(EventView::Done)
            &&& next.0.phase == PhaseView::Receiving(transfer)
            &&& next.1 == ActionView::Receive { progress: None }
        },
        state.phase == PhaseView::Receiving(transfer) ==> {
            let next = state.stepped(files, EventView::Ended);
            &&& state.takes(EventView::Ended)
            &&& next.0.phase == PhaseView::Flushing(transfer)
            &&& next.1 == ActionView::Flush
        },
{
}

/// The judgement in words: too short may be resumed and keeps its partial; too long, or with
/// another digest than the announced one in whatever case, loses its partial and may not; anything
/// else goes on into place.
pub proof fn law_the_judgement(state: DownloadView, files: MediaStore, transfer: TransferView)
    requires
        state.phase == PhaseView::Flushing(transfer),
        state.wf(),
    ensures
        ({
            let next = state.stepped(files, EventView::Done);
            let got = transfer.covered.len();
            let size = state.request.size_bytes;
            let actual = text::hex_text(digest::sha256(transfer.covered));
            let right = text::lowered(actual) == text::lowered(state.request.sha256);
            &&& state.takes(EventView::Done)
            &&& got < size ==> ends_with(
                next,
                "INCOMPLETE"@,
                "got "@ + text::decimal(got) + " of "@ + text::decimal(size as nat) + " bytes"@,
                true,
            )
            &&& got > size ==> drops_and_ends_with(
                next,
                files,
                "SIZE_MISMATCH"@,
                "got "@ + text::decimal(got) + ", expected "@ + text::decimal(size as nat),
                false,
            )
            &&& got == size && !right ==> drops_and_ends_with(
                next,
                files,
                "HASH_MISMATCH"@,
                "expected "@ + state.request.sha256 + ", got "@ + actual,
                false,
            )
            &&& got == size && right ==> {
                &&& next.0.phase is Finding
                &&& next.1 matches ActionView::Find(path)
                &&& path.dir == files.media_dir@
                &&& path.name == state.request.video_id + ".mp4"@
            }
        }),
{
}

/// The move into place: from `pending` to `media` under the same name, over whatever is there. The
/// download ends with the video where it went well, and otherwise with a failure that may be
/// retried.
pub proof fn law_the_move_into_place(
    state: DownloadView,
    files: MediaStore,
    found: bool,
    error: Seq<char>,
)
    requires
        state.phase is Finding,
    ensures
        ({
            let moving = state.stepped(files, EventView::Found(found));
            let name = state.request.video_id + ".mp4"@;
            &&& moving.1 matches ActionView::Promote { remove_first, source, target }
            &&& remove_first == found
            &&& source == (PathView { dir: files.pending_dir@, name })
            &&& target == (PathView { dir: files.media_dir@, name })
            &&& moving.0.takes(EventView::Done)
            &&& moving.0.stepped(files, EventView::Done).1 matches ActionView::Finish(Ok(path))
            &&& path == target
            &&& moving.0.takes(EventView::Failed(error))
            &&& ends_with(
                moving.0.stepped(files, EventView::Failed(error)),
                "PROMOTE_FAILED"@,
                "could not move "@ + state.request.video_id + " into media/: "@ + error,
                true,
            )
        }),
{
}

/// What breaks is a network error in the words of what broke: one that may be retried where the
/// request, the stream or a write of it broke off, and one that may not where the partial could
/// not be opened or set up.
pub proof fn law_what_breaks_is_a_network_error(
    state: DownloadView,
    files: MediaStore,
    error: Seq<char>,
)
    ensures
        state.phase is Opening || state.phase is Cutting ==> state.takes(EventView::Failed(error))
            && ends_with(
            state.stepped(files, EventView::Failed(error)),
            "NETWORK_ERROR"@,
            error,
            false,
        ),
        state.phase is Asking || state.phase is Receiving || state.phase is Flushing ==> state.takes(
            EventView::Failed(error),
        ) && ends_with(
            state.stepped(files, EventView::Failed(error)),
            "NETWORK_ERROR"@,
            error,
            true,
        ),
{
}

/// What a download is told to do, and what it is told in turn, are what they say.
pub proof fn law_actions_and_events_are_what_they_say(action: Action, event: Event)
    ensures
        action matches Action::Delete(list) ==> action@ == ActionView::Delete(store::paths(list@)),
        action matches Action::SizePartial(path) ==> action@ == ActionView::SizePartial(path@),
        action matches Action::Evict(path) ==> action@ == ActionView::Evict(path@),
        action matches Action::RemovePartial(path) ==> action@ == ActionView::RemovePartial(path@),
        action matches Action::OpenPartial(path) ==> action@ == ActionView::OpenPartial(path@),
        action matches Action::ReadPartial(want) ==> action@ == ActionView::ReadPartial(want as nat),
        action matches Action::Ask { url, headers } ==> action@ == (ActionView::Ask {
            url: url@,
            headers: media_server::fields(headers@),
        }),
        action matches Action::Cut { partial, at } ==> action@ == (ActionView::Cut {
            partial: partial@,
            at,
        }),
        action matches Action::Receive { progress } ==> action@ == (ActionView::Receive { progress }),
        action matches Action::Find(path) ==> action@ == ActionView::Find(path@),
        action matches Action::Promote(promotion) ==> action@ == (ActionView::Promote {
            remove_first: promotion.remove_first,
            source: promotion.source@,
            target: promotion.target@,
        }),
        action matches Action::Finish(Ok(path)) ==> action@ == ActionView::Finish(Ok(path@)),
        action matches Action::Finish(Err(failure)) ==> action@ == ActionView::Finish(Err(failure@)),
        action is ListPending <==> action@ is ListPending,
        action is MeasureFree <==> action@ is MeasureFree,
        action is ListMedia <==> action@ is ListMedia,
        action is Flush <==> action@ is Flush,
        event matches Event::Entries(entries) ==> event@ == EventView::Entries(
            store::listing(entries@),
        ),
        event matches Event::Size(len) ==> event@ == EventView::Size(len),
        event matches Event::Free(free) ==> event@ == EventView::Free(free),
        event matches Event::Failed(error) ==> event@ == EventView::Failed(error@),
        event matches Event::Read(bytes) ==> event@ == EventView::Read(bytes@),
        event matches Event::Status(status) ==> event@ == EventView::Status(status),
        event matches Event::Chunk(bytes) ==> event@ == EventView::Chunk(bytes@),
        event matches Event::Found(found) ==> event@ == EventView::Found(found),
        event is Done <==> event@ is Done,
        event is Ended <==> event@ is Ended,
{
}

/// A download is known by its request, what is playing and what it waits for.
pub proof fn law_a_download_is_known_by_its_fields(download: Download)
    ensures
        download@.request.video_id == download.request.video_id@,
        download@.request.url == download.request.url@,
        download@.request.sha256 == download.request.sha256@,
        download@.request.size_bytes == download.request.size_bytes,
        download@.active == text::opt_text(download.active),
        download.phase matches Phase::Receiving(transfer) ==> download@.phase
            == PhaseView::Receiving(transfer@),
        download.phase matches Phase::Flushing(transfer) ==> download@.phase
            == PhaseView::Flushing(transfer@),
        download.phase matches Phase::Replaying(replay) ==> download@.phase
            == PhaseView::Replaying(replay@),
{
}

/// A replay and a transfer are known by their counts and by what their digests have taken in.
pub proof fn law_counts_and_digests_are_what_they_say(replay: Replay, transfer: Transfer)
    ensures
        replay@.have == replay.have,
        replay@.remaining == replay.remaining,
        replay@.covered == digest::absorbed(replay.digest),
        transfer@.written == transfer.written,
        transfer@.last_percent == transfer.last_percent,
        transfer@.covered == digest::absorbed(transfer.digest),
{
}

/// A download begins with its own request, knows what is playing, and looks first at what is left of
/// other downloads.
pub proof fn law_a_download_begins_with_its_request(
    request: RequestView,
    active: Option<Seq<char>>,
    entries: Seq<EntryView>,
)
    ensures
        ({
            let state = DownloadView::of(request, active);
            &&& state.request.video_id == request.video_id
            &&& state.request.url == request.url
            &&& state.request.sha256 == request.sha256
            &&& state.request.size_bytes == request.size_bytes
            &&& state.active == active
            &&& state.takes(EventView::Entries(entries))
        }),
{
}

} // verus!
