//! What holds of the media store as a whole.

use vstd::prelude::*;
use vstd::seq_lib::*;
use vstd::string::*;

use crate::store;
use crate::store::{
    DirEntry, EntryView, MediaStore, PathView, Space, SpaceCheck, SpaceStep, SpaceStepView,
    SpaceView, StorePath,
};

verus! {

/// The contents of a disk, file by file.
pub type Disk = Map<PathView, Seq<u8>>;

/// A disk without the listed files.
pub open spec fn deleted(disk: Disk, list: Seq<PathView>) -> Disk {
    disk.remove_keys(list.to_set())
}

/// A disk on which `source` has been renamed to `target`.
pub open spec fn renamed(disk: Disk, source: PathView, target: PathView) -> Disk {
    disk.remove(source).insert(target, disk[source])
}

/// Whether a listing shows exactly the files of a directory.
pub open spec fn shows(entries: Seq<EntryView>, disk: Disk, dir: Seq<char>) -> bool {
    forall|name: Seq<char>|
        disk.contains_key(PathView { dir, name }) <==> exists|i: int|
            0 <= i < entries.len() && (#[trigger] entries[i]).is_file && entries[i].name == name
}

proof fn lemma_insert_by_age(sorted: Seq<EntryView>, entry: EntryView)
    requires
        forall|i: int, j: int| 0 <= i <= j < sorted.len() ==> sorted[i].modified <= sorted[j].modified,
    ensures
        ({
            let now = store::insert_by_age(sorted, entry);
            &&& now.len() == sorted.len() + 1
            &&& now.to_multiset() == sorted.to_multiset().insert(entry)
            &&& forall|i: int, j: int| 0 <= i <= j < now.len() ==> now[i].modified <= now[j].modified
            &&& forall|i: int|
                0 <= i < now.len() ==> sorted.contains(#[trigger] now[i]) || now[i] == entry
        }),
    decreases sorted.len(),
{
    broadcast use to_multiset_build;

    let now = store::insert_by_age(sorted, entry);
    if sorted.len() == 0 || sorted.last().modified <= entry.modified {
        assert forall|i: int| 0 <= i < now.len() implies sorted.contains(#[trigger] now[i]) || now[i]
            == entry by {
            if i < sorted.len() {
                assert(now[i] == sorted[i]);
            }
        }
    } else {
        let rest = sorted.drop_last();
        lemma_insert_by_age(rest, entry);
        let inner = store::insert_by_age(rest, entry);
        assert(rest.push(sorted.last()) =~= sorted);
        assert(now.to_multiset() =~= sorted.to_multiset().insert(entry));
        assert forall|i: int| 0 <= i < now.len() implies sorted.contains(#[trigger] now[i]) || now[i]
            == entry by {
            if i < inner.len() {
                assert(now[i] == inner[i]);
                if rest.contains(inner[i]) {
                    let k = choose|k: int| 0 <= k < rest.len() && rest[k] == inner[i];
                    assert(sorted[k] == inner[i]);
                }
            } else {
                assert(now[i] == sorted[sorted.len() - 1]);
            }
        }
        assert forall|i: int, j: int| 0 <= i <= j < now.len() implies now[i].modified
            <= now[j].modified by {
            if j == inner.len() && i < j {
                assert(now[i] == inner[i]);
                if rest.contains(inner[i]) {
                    let k = choose|k: int| 0 <= k < rest.len() && rest[k] == inner[i];
                    assert(sorted[k].modified <= sorted.last().modified);
                }
            } else if i < j {
                assert(now[i] == inner[i] && now[j] == inner[j]);
            }
        }
    }
}

/// Media files come oldest first.
pub proof fn law_media_files_come_oldest_first(entries: Seq<EntryView>)
    ensures
        forall|i: int, j: int|
            0 <= i <= j < store::oldest_first(entries).len() ==> store::oldest_first(entries)[i].modified
                <= store::oldest_first(entries)[j].modified,
    decreases entries.len(),
{
    if entries.len() > 0 {
        law_media_files_come_oldest_first(entries.drop_last());
        if entries.last().is_file {
            lemma_insert_by_age(store::oldest_first(entries.drop_last()), entries.last());
        }
    }
}

/// Sorting a listing loses no file, adds none, and drops whatever is not a file.
pub proof fn law_media_files_are_the_files_listed(entries: Seq<EntryView>)
    ensures
        store::oldest_first(entries).to_multiset() == entries.filter(
            |e: EntryView| e.is_file,
        ).to_multiset(),
    decreases entries.len(),
{
    broadcast use to_multiset_build;

    reveal(Seq::filter);
    let p = |e: EntryView| e.is_file;
    if entries.len() > 0 {
        let rest = entries.drop_last();
        law_media_files_are_the_files_listed(rest);
        law_media_files_come_oldest_first(rest);
        if entries.last().is_file {
            lemma_insert_by_age(store::oldest_first(rest), entries.last());
            assert(entries.filter(p) == rest.filter(p).push(entries.last()));
        }
    } else {
        assert(store::oldest_first(entries) =~= entries.filter(p));
    }
}

/// Files of one age stay in the order in which they were listed.
pub proof fn law_files_of_one_age_keep_their_order(entries: Seq<EntryView>, age: int)
    ensures
        store::oldest_first(entries).filter(|e: EntryView| e.modified == age) == entries.filter(
            |e: EntryView| e.is_file && e.modified == age,
        ),
    decreases entries.len(),
{
    reveal(Seq::filter);
    if entries.len() > 0 {
        law_files_of_one_age_keep_their_order(entries.drop_last(), age);
        law_media_files_come_oldest_first(entries.drop_last());
        if entries.last().is_file {
            lemma_insert_keeps_order(store::oldest_first(entries.drop_last()), entries.last(), age);
        }
    }
}

proof fn lemma_insert_keeps_order(sorted: Seq<EntryView>, entry: EntryView, age: int)
    requires
        forall|i: int, j: int| 0 <= i <= j < sorted.len() ==> sorted[i].modified <= sorted[j].modified,
    ensures
        ({
            let p = |e: EntryView| e.modified == age;
            store::insert_by_age(sorted, entry).filter(p) == if entry.modified == age {
                sorted.filter(p).push(entry)
            } else {
                sorted.filter(p)
            }
        }),
    decreases sorted.len(),
{
    reveal(Seq::filter);
    let p = |e: EntryView| e.modified == age;
    let now = store::insert_by_age(sorted, entry);
    assert(now.drop_last().push(now.last()) =~= now);
    if sorted.len() == 0 || sorted.last().modified <= entry.modified {
        assert(now.drop_last() =~= sorted);
    } else {
        lemma_insert_keeps_order(sorted.drop_last(), entry, age);
        assert(now.drop_last() =~= store::insert_by_age(sorted.drop_last(), entry));
    }
}

proof fn lemma_files_listed(entries: Seq<EntryView>, e: EntryView)
    ensures
        store::oldest_first(entries).contains(e) <==> (e.is_file && entries.contains(e)),
{
    law_media_files_are_the_files_listed(entries);
    let files = entries.filter(|e: EntryView| e.is_file);
    to_multiset_contains(store::oldest_first(entries), e);
    to_multiset_contains(files, e);
    assert(store::oldest_first(entries).contains(e) <==> files.contains(e));
    broadcast use group_filter_ensures;

    if files.contains(e) {
        entries.lemma_filter_contains_rev(|e: EntryView| e.is_file, e);
        let k = choose|k: int| 0 <= k < files.len() && files[k] == e;
        assert(files[k].is_file);
    }
    if e.is_file && entries.contains(e) {
        let k = choose|k: int| 0 <= k < entries.len() && entries[k] == e;
        assert(files.contains(entries[k]));
    }
}

/// The newest file wins: where there is a media file at all, the one at the end of the list is a
/// file of the listing, and no file of the listing is newer.
pub proof fn law_the_newest_file_wins(entries: Seq<EntryView>, k: int)
    requires
        0 <= k < entries.len(),
        entries[k].is_file,
    ensures
        store::oldest_first(entries).len() > 0,
        entries.contains(store::oldest_first(entries).last()),
        entries[k].modified <= store::oldest_first(entries).last().modified,
{
    let files = store::oldest_first(entries);
    assert(entries.contains(entries[k]));
    lemma_files_listed(entries, entries[k]);
    law_media_files_come_oldest_first(entries);
    let j = choose|j: int| 0 <= j < files.len() && files[j] == entries[k];
    assert(files[j].modified <= files[files.len() - 1].modified);
    assert(files.contains(files[files.len() - 1]));
    lemma_files_listed(entries, files.last());
}

/// A video's file gives its id back.
pub proof fn law_a_file_gives_its_video_id_back(video_id: Seq<char>)
    requires
        video_id.len() > 0,
    ensures
        store::stem(store::file_name(video_id)) == video_id,
{
    reveal_strlit(".mp4");
    let name = store::file_name(video_id);
    let n = name.len() as int;
    assert(name[n - 1] == '4' && name[n - 2] == 'p' && name[n - 3] == 'm' && name[n - 4] == '.');
    let a = name.drop_last();
    let b = a.drop_last();
    let c = b.drop_last();
    assert(a.last() == 'p' && b.last() == 'm' && c.last() == '.');
    assert(store::last_index(name, '.') == store::last_index(a, '.'));
    assert(store::last_index(a, '.') == store::last_index(b, '.'));
    assert(store::last_index(b, '.') == store::last_index(c, '.'));
    assert(store::last_index(c, '.') == n - 4);
    assert(name.len() > 2);
    assert(name.take(n - 4) =~= video_id);
}

/// The file name of an accepted video id cannot lead out of its directory: no separator, no drive
/// and no parent directory in it.
pub proof fn law_an_accepted_id_stays_in_its_directory(video_id: Seq<char>)
    requires
        store::usable_id(video_id),
    ensures
        !store::is_dots(store::file_name(video_id)),
        !store::file_name(video_id).contains('/'),
        !store::file_name(video_id).contains('\\'),
        !store::file_name(video_id).contains(':'),
        store::stem(store::file_name(video_id)) == video_id,
{
    reveal_strlit(".mp4");
    law_a_file_gives_its_video_id_back(video_id);
    let name = store::file_name(video_id);
    assert forall|i: int| 0 <= i < name.len() implies store::id_char(#[trigger] name[i]) by {
        if i < video_id.len() {
            assert(name[i] == video_id[i]);
        }
    }
    assert(name.len() > 2);
}

proof fn lemma_inactive(
    media: MediaStore,
    entries: Seq<EntryView>,
    active: Option<Seq<char>>,
    p: PathView,
)
    ensures
        media.inactive_files(active, entries).contains(p) <==> (p.dir == media.media_dir@ && active
            != Some(store::stem(p.name)) && exists|i: int|
            0 <= i < entries.len() && (#[trigger] entries[i]).is_file && entries[i].name == p.name),
{
    let dir = media.media_dir@;
    let files = store::oldest_first(entries);
    let pred = |e: EntryView| active != Some(store::stem(e.name));
    let kept = files.filter(pred);
    let list = store::paths_in(dir, kept);
    broadcast use group_filter_ensures;

    if list.contains(p) {
        let k = choose|k: int| 0 <= k < list.len() && list[k] == p;
        assert(kept.contains(kept[k]));
        files.lemma_filter_contains_rev(pred, kept[k]);
        lemma_files_listed(entries, kept[k]);
        assert(pred(kept[k]));
        let i = choose|i: int| 0 <= i < entries.len() && entries[i] == kept[k];
        assert(entries[i].is_file && entries[i].name == p.name);
    }
    if p.dir == dir && active != Some(store::stem(p.name)) && (exists|i: int|
        0 <= i < entries.len() && (#[trigger] entries[i]).is_file && entries[i].name == p.name) {
        let i = choose|i: int|
            0 <= i < entries.len() && (#[trigger] entries[i]).is_file && entries[i].name == p.name;
        assert(entries.contains(entries[i]));
        lemma_files_listed(entries, entries[i]);
        let j = choose|j: int| 0 <= j < files.len() && files[j] == entries[i];
        assert(kept.contains(files[j]));
        let k = choose|k: int| 0 <= k < kept.len() && kept[k] == files[j];
        assert(list[k] == p);
    }
}

/// Retention keeps the active video's file, with what is in it, deletes every other file of the
/// media directory, and touches nothing outside of it.
pub proof fn law_retention_leaves_only_the_active_video(
    files: MediaStore,
    entries: Seq<EntryView>,
    disk: Disk,
    active: Seq<char>,
)
    requires
        shows(entries, disk, files.media_dir@),
    ensures
        ({
            let after = deleted(disk, files.inactive_files(Some(active), entries));
            forall|p: PathView|
                #![trigger after.contains_key(p)]
                {
                    &&& after.contains_key(p) <==> disk.contains_key(p) && (p.dir
                        != files.media_dir@ || store::stem(p.name) == active)
                    &&& after.contains_key(p) ==> after[p] == disk[p]
                }
        }),
{
    let dir = files.media_dir@;
    let after = deleted(disk, files.inactive_files(Some(active), entries));
    assert forall|p: PathView|
        #![trigger after.contains_key(p)]
        {
            &&& after.contains_key(p) <==> disk.contains_key(p) && (p.dir != dir || store::stem(
                p.name,
            ) == active)
            &&& after.contains_key(p) ==> after[p] == disk[p]
        } by {
        lemma_inactive(files, entries, Some(active), p);
        assert(p == PathView { dir: p.dir, name: p.name });
    }
}

/// Clearing stale partials keeps the wanted video's partial, with what is in it, deletes every
/// other file of the pending directory, and touches nothing outside of it.
pub proof fn law_only_the_wanted_partial_is_kept(
    files: MediaStore,
    entries: Seq<EntryView>,
    disk: Disk,
    wanted: Seq<char>,
)
    requires
        shows(entries, disk, files.pending_dir@),
    ensures
        ({
            let after = deleted(disk, files.stale_partials(wanted, entries));
            forall|p: PathView|
                #![trigger after.contains_key(p)]
                {
                    &&& after.contains_key(p) <==> disk.contains_key(p) && (p.dir
                        != files.pending_dir@ || store::stem(p.name) == wanted)
                    &&& after.contains_key(p) ==> after[p] == disk[p]
                }
        }),
{
    let dir = files.pending_dir@;
    let pred = |e: EntryView| e.is_file && store::stem(e.name) != wanted;
    let kept = entries.filter(pred);
    let list = store::paths_in(dir, kept);
    let after = deleted(disk, list);
    broadcast use group_filter_ensures;

    assert forall|p: PathView|
        #![trigger after.contains_key(p)]
        {
            &&& after.contains_key(p) <==> disk.contains_key(p) && (p.dir != dir || store::stem(
                p.name,
            ) == wanted)
            &&& after.contains_key(p) ==> after[p] == disk[p]
        } by {
        assert(p == PathView { dir: p.dir, name: p.name });
        if list.contains(p) {
            let k = choose|k: int| 0 <= k < list.len() && list[k] == p;
            assert(pred(kept[k]));
        }
        if disk.contains_key(p) && p.dir == dir && store::stem(p.name) != wanted {
            let i = choose|i: int|
                0 <= i < entries.len() && (#[trigger] entries[i]).is_file && entries[i].name == p.name;
            assert(kept.contains(entries[i]));
            let k = choose|k: int| 0 <= k < kept.len() && kept[k] == entries[i];
            assert(list[k] == p);
        }
    }
}

/// A promotion puts the partial's bytes under the video's name in `media`, whatever was there,
/// takes them out of `pending`, and touches no other file.
pub proof fn law_promotion_moves_the_partial_over_the_active_file(
    files: MediaStore,
    disk: Disk,
    video_id: Seq<char>,
)
    requires
        files.pending_dir@ != files.media_dir@,
        disk.contains_key(files.spec_pending_file(video_id)),
    ensures
        ({
            let source = files.spec_pending_file(video_id);
            let target = files.spec_media_file(video_id);
            let after = renamed(deleted(disk, seq![target]), source, target);
            &&& after.contains_key(target)
            &&& after[target] == disk[source]
            &&& !after.contains_key(source)
            &&& after == renamed(disk, source, target)
            &&& forall|p: PathView|
                #![trigger after.contains_key(p)]
                p != source && p != target ==> (after.contains_key(p) <==> disk.contains_key(p)) && (
                after.contains_key(p) ==> after[p] == disk[p])
        }),
{
    let source = files.spec_pending_file(video_id);
    let target = files.spec_media_file(video_id);
    let list = seq![target];
    assert forall|p: PathView| #[trigger] list.to_set().contains(p) <==> p == target by {
        if p == target {
            assert(list[0] == p);
        }
    }
    let after = renamed(deleted(disk, list), source, target);
    assert(after =~= renamed(disk, source, target));
}

/// No file of the active video is ever among those to evict.
pub proof fn law_the_active_video_is_never_evicted(
    files: MediaStore,
    entries: Seq<EntryView>,
    active: Seq<char>,
    k: int,
)
    requires
        0 <= k < files.inactive_files(Some(active), entries).len(),
    ensures
        store::stem(files.inactive_files(Some(active), entries)[k].name) != active,
{
    let pred = |e: EntryView| Some(active) != Some(store::stem(e.name));
    let sorted = store::oldest_first(entries);
    broadcast use group_filter_ensures;

    assert(pred(sorted.filter(pred)[k]));
}

proof fn lemma_evicting(required: u64, inactive: Seq<PathView>, at: int, free: Seq<u64>, k: int)
    requires
        0 <= at <= inactive.len(),
        at <= k <= inactive.len(),
        0 <= k - at < free.len(),
        forall|i: int| 0 <= i < k - at ==> free[i] < required,
        free[k - at] >= required,
    ensures
        store::space_run(SpaceView::Evicting { required, left: inactive.skip(at) }, inactive, free) == Some(
            (inactive.subrange(at, k), Space::Enough),
        ),
    decreases k - at,
{
    if k == at {
        assert(inactive.subrange(at, k) =~= Seq::<PathView>::empty());
    } else {
        assert forall|i: int| 0 <= i < k - at - 1 implies free.drop_first()[i] < required by {
            assert(free.drop_first()[i] == free[i + 1]);
        }
        lemma_evicting(required, inactive, at + 1, free.drop_first(), k);
        assert(inactive.skip(at).drop_first() =~= inactive.skip(at + 1));
        assert(seq![inactive[at]] + inactive.subrange(at + 1, k) =~= inactive.subrange(at, k));
    }
}

/// As soon as there is room the check ends well, having evicted just the files that it took: with
/// `free[i]` measured after `i` evictions, and `k` the first of them that suffices, the `k` oldest
/// inactive files are gone.
pub proof fn law_eviction_stops_as_soon_as_there_is_room(
    required: u64,
    inactive: Seq<PathView>,
    free: Seq<u64>,
    k: int,
)
    requires
        0 <= k <= inactive.len(),
        k < free.len(),
        forall|i: int| 0 <= i < k ==> free[i] < required,
        free[k] >= required,
    ensures
        store::space_run(SpaceView::Unlisted { required }, inactive, free) == Some(
            (inactive.take(k), Space::Enough),
        ),
{
    if k == 0 {
        assert(inactive.take(0) =~= Seq::<PathView>::empty());
    } else {
        assert forall|i: int| 0 <= i < k - 1 implies free.drop_first()[i] < required by {
            assert(free.drop_first()[i] == free[i + 1]);
        }
        lemma_evicting(required, inactive, 1, free.drop_first(), k);
        assert(inactive.drop_first() =~= inactive.skip(1));
        assert(seq![inactive[0]] + inactive.subrange(1, k) =~= inactive.take(k));
        assert(free.first() < required);
        assert(store::measured(SpaceView::Unlisted { required }, free.first()) == SpaceStepView::List {
            required,
        });
        assert(store::offer(required, inactive) == SpaceStepView::Evict {
            file: inactive.first(),
            then: SpaceView::Evicting { required, left: inactive.skip(1) },
        });
    }
}

proof fn lemma_exhausting(required: u64, inactive: Seq<PathView>, at: int, free: Seq<u64>)
    requires
        0 <= at <= inactive.len(),
        free.len() >= inactive.len() - at + 2,
        forall|i: int| 0 <= i <= inactive.len() - at ==> free[i] < required,
    ensures
        store::space_run(SpaceView::Evicting { required, left: inactive.skip(at) }, inactive, free) == Some(
            (
                inactive.skip(at),
                Space::Insufficient {
                    required_bytes: required,
                    free_bytes: free[inactive.len() - at + 1],
                },
            ),
        ),
    decreases inactive.len() - at,
{
    assert(free.first() < required);
    if at == inactive.len() {
        assert(inactive.skip(at) =~= Seq::<PathView>::empty());
        let rest = free.drop_first();
        assert(rest.first() == free[1]);
        assert(store::space_run(SpaceView::Exhausted { required }, inactive, rest) == Some(
            (
                Seq::<PathView>::empty(),
                Space::Insufficient { required_bytes: required, free_bytes: free[1] },
            ),
        ));
    } else {
        assert forall|i: int| 0 <= i <= inactive.len() - at - 1 implies free.drop_first()[i]
            < required by {
            assert(free.drop_first()[i] == free[i + 1]);
        }
        lemma_exhausting(required, inactive, at + 1, free.drop_first());
        assert(inactive.skip(at).drop_first() =~= inactive.skip(at + 1));
        assert(seq![inactive[at]] + inactive.skip(at + 1) =~= inactive.skip(at));
    }
}

/// Where not even evicting every inactive file makes room, all of them are gone and the answer
/// says what was needed and what is free.
pub proof fn law_no_room_is_reported_after_evicting_everything_inactive(
    required: u64,
    inactive: Seq<PathView>,
    free: Seq<u64>,
)
    requires
        free.len() >= inactive.len() + 2,
        forall|i: int| 0 <= i <= inactive.len() ==> free[i] < required,
    ensures
        store::space_run(SpaceView::Unlisted { required }, inactive, free) == Some(
            (
                inactive,
                Space::Insufficient {
                    required_bytes: required,
                    free_bytes: free[inactive.len() as int + 1],
                },
            ),
        ),
{
    assert(free.first() < required);
    let rest = free.drop_first();
    if inactive.len() == 0 {
        assert(rest.first() == free[1]);
        assert(inactive =~= Seq::<PathView>::empty());
        assert(store::space_run(SpaceView::Exhausted { required }, inactive, rest) == Some(
            (
                Seq::<PathView>::empty(),
                Space::Insufficient { required_bytes: required, free_bytes: free[1] },
            ),
        ));
    } else {
        assert forall|i: int| 0 <= i <= inactive.len() - 1 implies rest[i] < required by {
            assert(rest[i] == free[i + 1]);
        }
        lemma_exhausting(required, inactive, 1, rest);
        assert(inactive.drop_first() =~= inactive.skip(1));
        assert(seq![inactive[0]] + inactive.skip(1) =~= inactive);
    }
}

/// A resumed download needs less room by the bytes it has: the whole file and half of it again
/// with nothing on disk, half of it once it is all there, and never more for having more.
pub proof fn law_a_resumed_download_only_needs_what_it_is_missing(size: nat, have: nat, more: nat)
    requires
        have <= more,
    ensures
        store::required_bytes(size, 0) == size + size / 2,
        have <= size ==> store::required_bytes(size, have) == store::required_bytes(size, 0) - have,
        have >= size ==> store::required_bytes(size, have) == size / 2,
        store::required_bytes(size, more) <= store::required_bytes(size, have),
{
}

/// The files of a video are its id and `.mp4`, in the directory for what plays and in the one for
/// what is being downloaded.
pub proof fn law_a_video_has_its_id_for_a_name(files: MediaStore, video_id: Seq<char>)
    ensures
        files.spec_media_file(video_id).dir == files.media_dir@,
        files.spec_media_file(video_id).name == video_id + ".mp4"@,
        files.spec_pending_file(video_id).dir == files.pending_dir@,
        files.spec_pending_file(video_id).name == video_id + ".mp4"@,
{
}

/// The id of a file is its name up to the last dot, unless the name begins with that one or has
/// none.
pub proof fn law_an_id_is_a_name_without_its_extension(base: Seq<char>, extension: Seq<char>)
    requires
        base.len() > 0,
        !extension.contains('.'),
        base.len() + extension.len() > 1,
    ensures
        store::stem(base + seq!['.'] + extension) == base,
        !base.contains('.') ==> store::stem(base) == base,
        store::stem(seq!['.'] + extension) == if extension.len() == 0 {
            Seq::<char>::empty()
        } else {
            seq!['.'] + extension
        },
{
    let name = base + seq!['.'] + extension;
    lemma_last_dot(base, extension);
    assert(name.len() > 2);
    assert(name.take(base.len() as int) =~= base);
    let empty = Seq::<char>::empty();
    lemma_last_dot(empty, extension);
    let hidden = seq!['.'] + extension;
    assert(empty + seq!['.'] + extension =~= hidden);
    if extension.len() == 0 {
        assert(hidden =~= seq!['.']);
    } else if extension.len() == 1 {
        assert(hidden[1] == extension[0]);
        assert(extension.contains(extension[0]));
    }
    if !base.contains('.') {
        lemma_no_dot(base);
        if base.len() == 1 {
            assert(base.contains(base[0]));
        }
        if base.len() == 2 {
            assert(base.contains(base[0]));
        }
    }
}

proof fn lemma_no_dot(s: Seq<char>)
    requires
        !s.contains('.'),
    ensures
        store::last_index(s, '.') == -1,
    decreases s.len(),
{
    if s.len() > 0 {
        assert(s.contains(s[s.len() - 1]));
        let rest = s.drop_last();
        assert forall|i: int| 0 <= i < rest.len() implies rest[i] != '.' by {
            assert(s.contains(s[i]));
        }
        lemma_no_dot(rest);
    }
}

proof fn lemma_last_dot(base: Seq<char>, extension: Seq<char>)
    requires
        !extension.contains('.'),
    ensures
        store::last_index(base + seq!['.'] + extension, '.') == base.len(),
    decreases extension.len(),
{
    let name = base + seq!['.'] + extension;
    if extension.len() > 0 {
        assert(extension.contains(extension[extension.len() - 1]));
        let rest = extension.drop_last();
        assert forall|i: int| 0 <= i < rest.len() implies rest[i] != '.' by {
            assert(extension.contains(extension[i]));
        }
        assert(name.drop_last() =~= base + seq!['.'] + rest);
        lemma_last_dot(base, rest);
    }
}

/// Whether a character is an ASCII letter or digit, a dot, an underscore or a hyphen.
pub open spec fn is_plain(c: char) -> bool {
    let code = c as int;
    ||| 0x30 <= code <= 0x39
    ||| 0x41 <= code <= 0x5a
    ||| 0x61 <= code <= 0x7a
    ||| code == 0x2e
    ||| code == 0x5f
    ||| code == 0x2d
}

/// An id is accepted exactly where it has one to two hundred characters, each an ASCII letter or
/// digit, a dot, an underscore or a hyphen, and is neither one dot nor two.
pub proof fn law_which_ids_are_accepted(id: Seq<char>)
    ensures
        store::usable_id(id) <==> {
            &&& 1 <= id.len() <= 200
            &&& id != seq!['.']
            &&& id != seq!['.', '.']
            &&& forall|i: int| 0 <= i < id.len() ==> is_plain(#[trigger] id[i])
        },
{
    assert(forall|c: char| #[trigger] is_plain(c) == store::id_char(c));
}

/// An entry of a listing is what was listed; one of unknown age counts as old as the epoch.
pub proof fn law_an_entry_is_what_was_listed(entry: DirEntry)
    ensures
        entry@.name == entry.name@,
        entry@.is_file == entry.is_file,
        entry.modified is Some ==> entry@.modified == entry.modified->0,
        entry.modified is None ==> entry@.modified == 0,
{
}

proof fn lemma_filter_sorted(sorted: Seq<EntryView>, p: spec_fn(EntryView) -> bool)
    requires
        forall|i: int, j: int| 0 <= i <= j < sorted.len() ==> sorted[i].modified <= sorted[j].modified,
    ensures
        forall|i: int, j: int|
            0 <= i <= j < sorted.filter(p).len() ==> sorted.filter(p)[i].modified <= sorted.filter(
                p,
            )[j].modified,
    decreases sorted.len(),
{
    broadcast use group_filter_ensures;

    reveal(Seq::filter);
    if sorted.len() > 0 {
        let rest = sorted.drop_last();
        lemma_filter_sorted(rest, p);
        let kept = sorted.filter(p);
        if p(sorted.last()) {
            let before = rest.filter(p);
            assert(kept == before.push(sorted.last()));
            assert forall|i: int, j: int| 0 <= i <= j < kept.len() implies kept[i].modified
                <= kept[j].modified by {
                if j == before.len() && i < j {
                    assert(before.contains(before[i]));
                    rest.lemma_filter_contains_rev(p, before[i]);
                    let k = choose|k: int| 0 <= k < rest.len() && rest[k] == before[i];
                    assert(sorted[k].modified <= sorted[sorted.len() - 1].modified);
                }
            }
        }
    }
}

/// What is evicted first is the oldest: the media files of other videos come in the order of their
/// ages, each of them a file of the listing.
pub proof fn law_the_oldest_is_evicted_first(
    files: MediaStore,
    entries: Seq<EntryView>,
    active: Option<Seq<char>>,
) -> (kept: Seq<EntryView>)
    ensures
        kept.len() == files.inactive_files(active, entries).len(),
        forall|i: int|
            0 <= i < kept.len() ==> (#[trigger] files.inactive_files(active, entries)[i]) == (
            PathView { dir: files.media_dir@, name: kept[i].name }),
        forall|i: int, j: int| 0 <= i <= j < kept.len() ==> kept[i].modified <= kept[j].modified,
        forall|i: int|
            0 <= i < kept.len() ==> entries.contains(#[trigger] kept[i]) && kept[i].is_file
                && active != Some(store::stem(kept[i].name)),
{
    broadcast use group_filter_ensures;

    let sorted = store::oldest_first(entries);
    let p = |e: EntryView| active != Some(store::stem(e.name));
    let kept = sorted.filter(p);
    law_media_files_come_oldest_first(entries);
    lemma_filter_sorted(sorted, p);
    assert forall|i: int| 0 <= i < kept.len() implies entries.contains(#[trigger] kept[i])
        && kept[i].is_file && active != Some(store::stem(kept[i].name)) by {
        assert(kept.contains(kept[i]));
        sorted.lemma_filter_contains_rev(p, kept[i]);
        lemma_files_listed(entries, kept[i]);
        assert(p(kept[i]));
    }
    kept
}

/// Every media file of another video may be evicted.
pub proof fn law_every_other_video_may_be_evicted(
    files: MediaStore,
    entries: Seq<EntryView>,
    active: Option<Seq<char>>,
    k: int,
)
    requires
        0 <= k < entries.len(),
        entries[k].is_file,
        active != Some(store::stem(entries[k].name)),
    ensures
        files.inactive_files(active, entries).contains(
            PathView { dir: files.media_dir@, name: entries[k].name },
        ),
{
    lemma_inactive(files, entries, active, PathView { dir: files.media_dir@, name: entries[k].name });
}

/// A listing, a list of paths and the paths of a listing stand for what they hold, one by one and in
/// order.
pub proof fn law_lists_stand_for_what_they_hold(
    entries: Seq<DirEntry>,
    list: Seq<StorePath>,
    dir: Seq<char>,
    views: Seq<EntryView>,
    i: int,
)
    ensures
        store::listing(entries).len() == entries.len(),
        0 <= i < entries.len() ==> store::listing(entries)[i] == entries[i]@,
        store::paths(list).len() == list.len(),
        0 <= i < list.len() ==> store::paths(list)[i].dir == list[i].dir@ && store::paths(list)[i].name
            == list[i].name@,
        store::paths_in(dir, views).len() == views.len(),
        0 <= i < views.len() ==> store::paths_in(dir, views)[i] == (PathView {
            dir,
            name: views[i].name,
        }),
{
}

/// The names that stand for no file of their own are the empty one, one dot and two dots.
pub proof fn law_which_names_stand_for_no_file(name: Seq<char>)
    ensures
        store::is_dots(name) <==> name.len() == 0 || (name.len() == 1 && name[0] == '.') || (
        name.len() == 2 && name[0] == '.' && name[1] == '.'),
        store::is_dots(name) ==> store::stem(name).len() == 0,
{
    if name.len() == 1 && name[0] == '.' {
        assert(name =~= seq!['.']);
    }
    if name.len() == 2 && name[0] == '.' && name[1] == '.' {
        assert(name =~= seq!['.', '.']);
    }
}

/// The steps towards room are what they say.
pub proof fn law_steps_towards_room_are_what_they_say(step: SpaceStep)
    ensures
        step matches SpaceStep::Done(space) ==> step@ == SpaceStepView::Done(space),
        step matches SpaceStep::List(listing) ==> step@ == (SpaceStepView::List {
            required: listing.required,
        }),
        step matches SpaceStep::Evict { file, then } ==> (step@ matches SpaceStepView::Evict {
            file: path,
            then: check,
        } && path.dir == file.dir@ && path.name == file.name@ && check == then@),
        step matches SpaceStep::Measure(check) ==> step@ == SpaceStepView::Measure(check@),
{
}

/// A check for room is what it says.
pub proof fn law_a_check_for_room_is_what_it_says(check: SpaceCheck)
    ensures
        check matches SpaceCheck::Unlisted { required } ==> check@ == (SpaceView::Unlisted { required }),
        check matches SpaceCheck::Evicting { required, left } ==> check@ == (SpaceView::Evicting {
            required,
            left: store::paths(left@),
        }),
        check matches SpaceCheck::Exhausted { required } ==> check@ == (SpaceView::Exhausted {
            required,
        }),
{
}

} // verus!
