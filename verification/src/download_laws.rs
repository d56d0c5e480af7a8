//! What holds of downloads as a whole.

use vstd::prelude::*;
use vstd::seq_lib::*;
use vstd::string::*;

use crate::download;
use crate::download::{Failure, ReplayView, Request, RequestView, TransferView};
use crate::fetch::{ActionView, DownloadView, EventView, PhaseView};
use crate::media_server;
use crate::store;
use crate::store::{EntryView, MediaStore, PathView, SpaceView};

verus! {

// ------------------------------------------------------------------ the digest

/// A replay behind a series of reads, which ends as soon as nothing remains.
pub open spec fn replayed(replay: ReplayView, reads: Seq<Seq<u8>>) -> ReplayView
    decreases reads.len(),
{
    if reads.len() == 0 || replay.remaining == 0 {
        replay
    } else {
        replayed(replay.read(reads.first()), reads.drop_first())
    }
}

/// Replaying a partial covers all of it, in however many pieces it is read, so a resumed transfer
/// can be verified against the hash of the whole file.
pub proof fn law_a_replay_covers_the_whole_partial(replay: ReplayView, reads: Seq<Seq<u8>>)
    requires
        replay.wf(),
        forall|i: int| 0 <= i < reads.len() ==> (#[trigger] reads[i]).len() > 0,
        reads.flatten().len() == replay.remaining,
    ensures
        replayed(replay, reads).covered == replay.covered + reads.flatten(),
        replayed(replay, reads).remaining == 0,
        replayed(replay, reads).have == replay.have,
        replayed(replay, reads).wf(),
    decreases reads.len(),
{
    if reads.len() == 0 {
        assert(replay.covered + reads.flatten() =~= replay.covered);
    } else {
        let rest = reads.drop_first();
        assert(reads.flatten() == reads.first() + rest.flatten());
        assert(reads[0].len() > 0);
        assert forall|i: int| 0 <= i < rest.len() implies (#[trigger] rest[i]).len() > 0 by {
            assert(rest[i] == reads[i + 1]);
        }
        law_a_replay_covers_the_whole_partial(replay.read(reads.first()), rest);
        assert(replay.covered + reads.first() + rest.flatten() =~= replay.covered
            + reads.flatten());
    }
}

/// Of a partial that shrinks while it is replayed, only what was hashed counts.
pub proof fn law_a_shrunken_partial_counts_as_far_as_it_was_hashed(
    replay: ReplayView,
    reads: Seq<Seq<u8>>,
)
    requires
        replay.wf(),
        forall|i: int| 0 <= i < reads.len() ==> (#[trigger] reads[i]).len() > 0,
        reads.flatten().len() < replay.remaining,
    ensures
        ({
            let end = replayed(replay, reads.push(Seq::empty()));
            &&& end.covered == replay.covered + reads.flatten()
            &&& end.have == end.covered.len()
            &&& end.remaining == 0
        }),
    decreases reads.len(),
{
    let all = reads.push(Seq::<u8>::empty());
    assert(replay.remaining > 0);
    if reads.len() == 0 {
        let next = replay.read(all.first());
        assert(replayed(next, all.drop_first()) == next);
        assert(replay.covered + reads.flatten() =~= replay.covered);
    } else {
        let rest = reads.drop_first();
        assert(reads.flatten() == reads.first() + rest.flatten());
        assert(reads[0].len() > 0);
        assert(all.first() == reads.first());
        assert(all.drop_first() =~= rest.push(Seq::<u8>::empty()));
        assert forall|i: int| 0 <= i < rest.len() implies (#[trigger] rest[i]).len() > 0 by {
            assert(rest[i] == reads[i + 1]);
        }
        law_a_shrunken_partial_counts_as_far_as_it_was_hashed(replay.read(reads.first()), rest);
        assert(replay.covered + reads.first() + rest.flatten() =~= replay.covered
            + reads.flatten());
    }
}

/// A transfer behind a series of chunks.
pub open spec fn received_all(
    transfer: TransferView,
    size: u64,
    chunks: Seq<Seq<u8>>,
) -> TransferView
    decreases chunks.len(),
{
    if chunks.len() == 0 {
        transfer
    } else {
        received_all(transfer.received(size, chunks.first()), size, chunks.drop_first())
    }
}

/// A resumed transfer is judged as if the whole file had come at once: by all the bytes that are
/// there, in however many chunks they came and whatever was there before.
pub proof fn law_a_resumed_transfer_is_judged_like_a_whole_one(
    transfer: TransferView,
    request: RequestView,
    chunks: Seq<Seq<u8>>,
)
    requires
        transfer.wf(),
        transfer.written + chunks.flatten().len() <= u64::MAX,
    ensures
        ({
            let end = received_all(transfer, request.size_bytes, chunks);
            &&& end.wf()
            &&& end.covered == transfer.covered + chunks.flatten()
            &&& end.judged(request) == TransferView::behind(
                transfer.covered + chunks.flatten(),
            ).judged(request)
        }),
    decreases chunks.len(),
{
    if chunks.len() == 0 {
        assert(transfer.covered + chunks.flatten() =~= transfer.covered);
    } else {
        let rest = chunks.drop_first();
        let next = transfer.received(request.size_bytes, chunks.first());
        assert(chunks.flatten() == chunks.first() + rest.flatten());
        law_a_resumed_transfer_is_judged_like_a_whole_one(next, request, rest);
        assert(transfer.covered + chunks.first() + rest.flatten() =~= transfer.covered
            + chunks.flatten());
    }
}

/// A server that ignored the range is never spliced onto what was there: whatever was covered
/// before, what counts is what comes now.
pub proof fn law_an_ignored_range_starts_from_zero(
    transfer: TransferView,
    request: RequestView,
    chunks: Seq<Seq<u8>>,
)
    requires
        transfer.wf(),
        chunks.flatten().len() <= u64::MAX,
    ensures
        transfer.answered(request, 200) matches Ok(fresh) && fresh.wf() && received_all(
            fresh,
            request.size_bytes,
            chunks,
        ).covered == chunks.flatten(),
{
    let fresh = transfer.answered(request, 200)->Ok_0;
    assert(fresh.covered =~= Seq::<u8>::empty());
    law_a_resumed_transfer_is_judged_like_a_whole_one(fresh, request, chunks);
    assert(fresh.covered + chunks.flatten() =~= chunks.flatten());
}

/// A file is accepted exactly when it has the length and the digest that were announced. Too
/// short a one keeps its partial and may be resumed; any other that is refused loses its partial
/// and may not.
pub proof fn law_only_the_right_bytes_are_accepted(transfer: TransferView, request: RequestView)
    requires
        transfer.wf(),
    ensures
        transfer.judged(request) is None <==> {
            &&& transfer.covered.len() == request.size_bytes
            &&& download::has_digest(transfer.covered, request.sha256)
        },
        transfer.judged(request) matches Some(refusal) ==> {
            &&& refusal.remove_partial <==> transfer.covered.len() >= request.size_bytes
            &&& refusal.failure.resumable <==> !refusal.remove_partial
        },
{
}

// -------------------------------------------------------------------- progress

/// Progress is a whole percentage that never exceeds 100, never falls, is 100 exactly once
/// everything is there, and is not reported twice in a row.
pub proof fn law_progress_is_monotone(transfer: TransferView, size: u64, chunk: Seq<u8>)
    requires
        transfer.wf(),
        transfer.written + chunk.len() <= u64::MAX,
        size > 0,
    ensures
        download::percent_of(transfer.written as nat, size as nat) matches Some(before)
            && download::percent_of(
            transfer.received(size, chunk).written as nat,
            size as nat,
        ) matches Some(after) && {
            &&& before <= after <= 100
            &&& after == 100 <==> transfer.written + chunk.len() >= size
            &&& transfer.progress(size, chunk) == (if after != transfer.last_percent {
                Some(after)
            } else {
                None
            })
            &&& transfer.received(size, chunk).last_percent == after
        },
{
    let written = transfer.written as int;
    let now = transfer.written + chunk.len();
    let s = size as int;
    if now < s {
        assert(written * 100 / s <= now * 100 / s < 100 && 0 <= written * 100 / s)
            by (nonlinear_arith)
            requires
                0 <= written <= now,
                now < s,
        ;
    } else if written < s {
        assert(0 <= written * 100 / s < 100) by (nonlinear_arith)
            requires
                0 <= written,
                written < s,
        ;
    }
}

/// The header of a resumed transfer asks for everything behind what is there.
pub proof fn law_the_range_header_asks_for_the_rest(have: u64)
    ensures
        media_server::range_of(download::range_value(have)) == Some((have, None::<u64>)),
{
    media_server::law_an_open_ended_range_reads_back(have);
}

// -------------------------------------------------------------------- the disk

/// The bytes of a partial that may not exist.
pub open spec fn bytes_of(partial: Option<Seq<u8>>) -> Seq<u8> {
    match partial {
        Some(bytes) => bytes,
        None => Seq::empty(),
    }
}

/// Whether what a download has hashed is what its partial begins with; once it receives, that is
/// all there is in the partial, and once it is about to promote, the partial has the length and
/// the digest that were announced.
pub open spec fn coherent(state: DownloadView, partial: Option<Seq<u8>>) -> bool {
    match state.phase {
        PhaseView::Replaying(replay) => replay.covered.is_prefix_of(bytes_of(partial)),
        PhaseView::Asking(transfer) => transfer.covered.is_prefix_of(bytes_of(partial)),
        PhaseView::Cutting(transfer) => transfer.covered.is_prefix_of(bytes_of(partial)),
        PhaseView::Receiving(transfer) => partial == Some(transfer.covered),
        PhaseView::Flushing(transfer) => partial == Some(transfer.covered),
        PhaseView::Finding => is_wanted(state.request, partial),
        PhaseView::Promoting => is_wanted(state.request, partial),
        _ => true,
    }
}

/// Whether a file has the length and the digest that were announced.
pub open spec fn is_wanted(request: RequestView, file: Option<Seq<u8>>) -> bool {
    &&& file matches Some(bytes)
    &&& bytes.len() == request.size_bytes
    &&& download::has_digest(bytes, request.sha256)
}

/// How what a download waited for may have changed its partial, given how it went. A deletion may
/// fail, and what is read is what comes next in the partial.
pub open spec fn may_turn(
    state: DownloadView,
    event: EventView,
    before: Option<Seq<u8>>,
    after: Option<Seq<u8>>,
) -> bool {
    match (state.phase, event) {
        (PhaseView::Discarding, EventView::Done) => after is None || after == before,
        (PhaseView::Refusing(_), EventView::Done) => after is None || after == before,
        (PhaseView::Promoting, EventView::Done) => after is None,
        (PhaseView::Replaying(replay), EventView::Read(bytes)) => {
            &&& after == before
            &&& (replay.covered + bytes).is_prefix_of(bytes_of(before))
        },
        (PhaseView::Cutting(transfer), EventView::Done) => {
            &&& after matches Some(bytes)
            &&& bytes.len() == transfer.written
            &&& forall|i: int|
                0 <= i < bytes.len() && i < bytes_of(before).len() ==> bytes[i] == bytes_of(
                    before,
                )[i]
        },
        (PhaseView::Receiving(_), EventView::Chunk(bytes)) => after == Some(
            bytes_of(before) + bytes,
        ),
        (PhaseView::Cutting(_), EventView::Failed(_)) => true,
        (PhaseView::Receiving(_), EventView::Failed(_)) => true,
        (PhaseView::Flushing(_), EventView::Failed(_)) => true,
        _ => after == before,
    }
}

/// The digest never loses touch with the disk: what a download has hashed stays what its partial
/// begins with, step by step, and what lies behind that is cut off before anything is added.
pub proof fn law_the_digest_covers_what_is_on_disk(
    state: DownloadView,
    files: MediaStore,
    event: EventView,
    before: Option<Seq<u8>>,
    after: Option<Seq<u8>>,
)
    requires
        state.wf(),
        state.takes(event),
        coherent(state, before),
        may_turn(state, event, before, after),
    ensures
        coherent(state.stepped(files, event).0, after),
        state.stepped(files, event).0.wf(),
{
    let next = state.stepped(files, event).0;
    let none = Seq::<u8>::empty();
    assert(none =~= bytes_of(after).subrange(0, 0));
    match (state.phase, event) {
        (PhaseView::Replaying(replay), EventView::Read(bytes)) => {
            if bytes.len() > 0 {
                assert(replay.read(bytes).covered == replay.covered + bytes);
            }
        },
        (PhaseView::Asking(transfer), EventView::Status(status)) => {
            assert(transfer.covered.len() == 0 ==> transfer.covered =~= none);
        },
        (PhaseView::Cutting(transfer), EventView::Done) => {
            let there = bytes_of(before);
            let bytes = after->0;
            assert(bytes =~= transfer.covered) by {
                assert forall|i: int| 0 <= i < bytes.len() implies bytes[i]
                    == transfer.covered[i] by {
                    assert(transfer.covered[i] == there.subrange(
                        0,
                        transfer.covered.len() as int,
                    )[i]);
                }
            }
        },
        _ => {},
    }
}

/// A step of a download: how what it waited for went, and what its partial is then.
pub struct Moment {
    pub event: EventView,
    pub partial: Option<Seq<u8>>,
}

/// Whether a download can take this course from here, with this partial on disk.
pub open spec fn may_go(
    state: DownloadView,
    files: MediaStore,
    partial: Option<Seq<u8>>,
    course: Seq<Moment>,
) -> bool
    decreases course.len(),
{
    course.len() > 0 ==> {
        let next = course.first();
        &&& state.takes(next.event)
        &&& may_turn(state, next.event, partial, next.partial)
        &&& may_go(
            state.stepped(files, next.event).0,
            files,
            next.partial,
            course.drop_first(),
        )
    }
}

/// Where a course leads, and what the partial is there.
pub open spec fn end_of(
    state: DownloadView,
    files: MediaStore,
    partial: Option<Seq<u8>>,
    course: Seq<Moment>,
) -> (DownloadView, Option<Seq<u8>>)
    decreases course.len(),
{
    if course.len() == 0 {
        (state, partial)
    } else {
        let next = course.first();
        end_of(state.stepped(files, next.event).0, files, next.partial, course.drop_first())
    }
}

proof fn lemma_a_course_stays_coherent(
    state: DownloadView,
    files: MediaStore,
    partial: Option<Seq<u8>>,
    course: Seq<Moment>,
)
    requires
        state.wf(),
        coherent(state, partial),
        may_go(state, files, partial, course),
    ensures
        ({
            let end = end_of(state, files, partial, course);
            &&& end.0.wf()
            &&& coherent(end.0, end.1)
            &&& end.0.request == state.request
            &&& end.0.active == state.active
        }),
    decreases course.len(),
{
    if course.len() > 0 {
        let next = course.first();
        law_the_digest_covers_what_is_on_disk(state, files, next.event, partial, next.partial);
        lemma_a_course_stays_coherent(
            state.stepped(files, next.event).0,
            files,
            next.partial,
            course.drop_first(),
        );
    }
}

/// Nothing moves into `media` before its length and hash have been verified: whatever an earlier
/// attempt left on disk and whatever course a download takes, when it asks for the move, its
/// partial has the length and the digest that were announced, and it is that partial which moves.
pub proof fn law_nothing_is_promoted_unverified(
    begun: DownloadView,
    files: MediaStore,
    left: Option<Seq<u8>>,
    course: Seq<Moment>,
    event: EventView,
)
    requires
        begun.phase is Listing,
        may_go(begun, files, left, course),
        end_of(begun, files, left, course).0.takes(event),
    ensures
        ({
            let (state, partial) = end_of(begun, files, left, course);
            &&& state.stepped(files, event).1 matches ActionView::Promote { source, target, .. } ==> {
                &&& is_wanted(begun.request, partial)
                &&& source == files.spec_pending_file(begun.request.video_id)
                &&& target == files.spec_media_file(begun.request.video_id)
            }
        }),
{
    lemma_a_course_stays_coherent(begun, files, left, course);
}

/// A download succeeds only with its own file in place, and only after the move.
pub proof fn law_a_download_succeeds_only_behind_its_promotion(
    state: DownloadView,
    files: MediaStore,
    event: EventView,
)
    requires
        state.takes(event),
    ensures
        state.stepped(files, event).1 matches ActionView::Finish(Ok(path)) ==> state.phase is Promoting
            && event is Done && path == files.spec_media_file(state.request.video_id),
        state.stepped(files, event).0.phase is Promoting ==> state.phase is Finding,
        state.stepped(files, event).0.phase is Finding ==> state.phase is Flushing,
{
}

/// A download behind a series of chunks.
pub open spec fn fed(state: DownloadView, files: MediaStore, chunks: Seq<Seq<u8>>) -> DownloadView
    decreases chunks.len(),
{
    if chunks.len() == 0 {
        state
    } else {
        fed(
            state.stepped(files, EventView::Chunk(chunks.first())).0,
            files,
            chunks.drop_first(),
        )
    }
}

proof fn lemma_fed(
    state: DownloadView,
    transfer: TransferView,
    files: MediaStore,
    chunks: Seq<Seq<u8>>,
)
    requires
        state.phase == PhaseView::Receiving(transfer),
    ensures
        fed(state, files, chunks) == state.at(
            PhaseView::Receiving(received_all(transfer, state.request.size_bytes, chunks)),
        ),
    decreases chunks.len(),
{
    if chunks.len() > 0 {
        let next = state.stepped(files, EventView::Chunk(chunks.first())).0;
        lemma_fed(
            next,
            transfer.received(state.request.size_bytes, chunks.first()),
            files,
            chunks.drop_first(),
        );
    }
}

/// A download that has `have` bytes of the right file, and gets the rest of it in however many
/// chunks, arrives: it continues exactly behind what it has, and goes on to put the file in place.
/// From zero, it does so with either answer that a server may give.
pub proof fn law_a_resumed_download_arrives(
    asking: DownloadView,
    files: MediaStore,
    file: Seq<u8>,
    have: u64,
    status: u16,
    chunks: Seq<Seq<u8>>,
)
    requires
        have <= file.len(),
        asking.phase == PhaseView::Asking(TransferView::behind(file.take(have as int))),
        file.len() == asking.request.size_bytes,
        download::has_digest(file, asking.request.sha256),
        status == 206 || (status == 200 && have == 0),
        chunks.flatten() == file.skip(have as int),
    ensures
        ({
            let cutting = asking.stepped(files, EventView::Status(status));
            let receiving = cutting.0.stepped(files, EventView::Done);
            let ended = fed(receiving.0, files, chunks).stepped(files, EventView::Ended);
            &&& cutting.1 == (ActionView::Cut {
                partial: files.spec_pending_file(asking.request.video_id),
                at: have,
            })
            &&& receiving.1 is Receive
            &&& ended.1 is Flush
            &&& ended.0.stepped(files, EventView::Done).1 == ActionView::Find(
                files.spec_media_file(asking.request.video_id),
            )
        }),
{
    let start = TransferView::behind(file.take(have as int));
    let cutting = asking.stepped(files, EventView::Status(status)).0;
    assert(cutting.phase == PhaseView::Cutting(start));
    let receiving = cutting.stepped(files, EventView::Done).0;
    lemma_fed(receiving, start, files, chunks);
    law_a_resumed_transfer_is_judged_like_a_whole_one(start, asking.request, chunks);
    assert(file.take(have as int) + file.skip(have as int) =~= file);
}

/// A download that went wrong on the way, or came too short, keeps its partial: the only partials
/// of its own that a download removes are one that is larger than the file, one whose range the
/// server rejected, and one that was received whole and is wrong.
pub proof fn law_an_interrupted_download_keeps_its_partial(
    state: DownloadView,
    files: MediaStore,
    event: EventView,
)
    requires
        state.wf(),
        state.takes(event),
    ensures
        state.stepped(files, event).1 is RemovePartial ==> match (state.phase, event) {
            (PhaseView::Inspecting, EventView::Size(Some(len))) => len > state.request.size_bytes,
            (PhaseView::Asking(_), EventView::Status(status)) => status == 416,
            (PhaseView::Flushing(transfer), EventView::Done) => transfer.written
                >= state.request.size_bytes,
            _ => false,
        },
        state.stepped(files, event).1 matches ActionView::RemovePartial(path) ==> path
            == files.spec_pending_file(state.request.video_id),
{
}

/// Whether a check for room is bent on inactive files of `media` alone.
pub open spec fn spares(files: MediaStore, active: Option<Seq<char>>, left: Seq<PathView>) -> bool {
    forall|i: int|
        0 <= i < left.len() ==> (#[trigger] left[i]).dir == files.media_dir@ && active != Some(
            store::stem(left[i].name),
        )
}

/// Whether a download is bent on inactive files of `media` alone.
pub open spec fn spares_the_active_video(state: DownloadView, files: MediaStore) -> bool {
    match state.phase {
        PhaseView::Measuring(SpaceView::Evicting { left, .. }) => spares(files, state.active, left),
        PhaseView::Evicting(SpaceView::Evicting { left, .. }) => spares(files, state.active, left),
        _ => true,
    }
}

/// A download never touches the video that is playing until its own is verified: what it evicts
/// for the sake of room is never the active video.
pub proof fn law_a_download_does_not_disturb_the_active_video(
    state: DownloadView,
    files: MediaStore,
    event: EventView,
)
    requires
        state.takes(event),
        spares_the_active_video(state, files),
    ensures
        spares_the_active_video(state.stepped(files, event).0, files),
        state.stepped(files, event).1 matches ActionView::Evict(path) ==> path.dir
            == files.media_dir@ && state.active != Some(store::stem(path.name)),
        state.stepped(files, event).1 matches ActionView::Delete(list) ==> forall|i: int|
            0 <= i < list.len() ==> (#[trigger] list[i]).dir == files.pending_dir@,
{
    match (state.phase, event) {
        (PhaseView::Surveying(required), EventView::Entries(entries)) => {
            let sorted = store::oldest_first(entries);
            let p = |e: EntryView| state.active != Some(store::stem(e.name));
            let left = files.inactive_files(state.active, entries);
            broadcast use group_filter_ensures;

            assert forall|i: int| 0 <= i < left.len() implies (#[trigger] left[i]).dir
                == files.media_dir@ && state.active != Some(store::stem(left[i].name)) by {
                assert(p(sorted.filter(p)[i]));
            }
            if left.len() > 0 {
                let rest = left.drop_first();
                assert(forall|i: int| 0 <= i < rest.len() ==> #[trigger] rest[i] == left[i + 1]);
            }
        },
        (PhaseView::Measuring(SpaceView::Evicting { left, .. }), EventView::Free(_)) => {
            if left.len() > 0 {
                let rest = left.drop_first();
                assert(forall|i: int| 0 <= i < rest.len() ==> #[trigger] rest[i] == left[i + 1]);
            }
        },
        _ => {},
    }
}

/// A request and a failure are known by their fields.
pub proof fn law_requests_and_failures_are_known_by_their_fields(request: Request, failure: Failure)
    ensures
        request@.video_id == request.video_id@,
        request@.url == request.url@,
        request@.sha256 == request.sha256@,
        request@.size_bytes == request.size_bytes,
        failure@.code == failure.code@,
        failure@.detail == failure.detail@,
        failure@.resumable == failure.resumable,
{
}

/// A transfer that begins reports the first percentage it reaches, whatever that is, and counts
/// what it continues behind.
pub proof fn law_a_transfer_reports_its_first_percentage(
    covered: Seq<u8>,
    size: u64,
    chunk: Seq<u8>,
)
    requires
        covered.len() <= u64::MAX,
        size > 0,
    ensures
        TransferView::behind(covered).written == covered.len(),
        TransferView::behind(covered).covered == covered,
        TransferView::behind(covered).progress(size, chunk) is Some,
{
    let written = (covered.len() + chunk.len()) as int;
    let s = size as int;
    if written < s {
        assert(0 <= written * 100 / s < 100) by (nonlinear_arith)
            requires
                0 <= written < s,
        ;
    }
}

} // verus!
