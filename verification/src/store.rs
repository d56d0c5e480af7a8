//! On-disk layout and the rules that keep a small store PC from filling up.
//!
//! ```text
//!     <appdata>/media/<videoId>.mp4      what is playing, or about to
//!     <appdata>/pending/<videoId>.mp4    a download in progress; may be a partial file
//! ```
//!
//! Files only ever move from `pending` to `media`, by rename, and only after their hash
//! has been verified. What is playing is not touched until then, so a failed download
//! cannot disturb what is on screen; videos that are not playing may be evicted to make room.
//!
//! The functions here decide which files are listed, deleted and moved; whoever calls them
//! does the deleting and moving.

use vstd::prelude::*;
use vstd::string::*;

use crate::text;
use crate::text::{chars_of, text_eq};

verus! {

/// A file of the store: its directory below the application's data directory, and its name in
/// there.
#[derive(Debug, PartialEq, Eq)]
pub struct StorePath {
    pub dir: String,
    pub name: String,
}

/// What a [`StorePath`] stands for.
#[verifier::ext_equal]
pub struct PathView {
    pub dir: Seq<char>,
    pub name: Seq<char>,
}

impl View for StorePath {
    type V = PathView;

    open spec fn view(&self) -> PathView {
        PathView { dir: self.dir@, name: self.name@ }
    }
}

impl Clone for StorePath {
    fn clone(&self) -> (copy: Self)
        ensures
            copy == *self,
    {
        StorePath { dir: self.dir.clone(), name: self.name.clone() }
    }
}

/// One entry of a directory listing. `modified` is in nanoseconds since the Unix epoch, and
/// missing where the file system would not say.
#[derive(Debug)]
pub struct DirEntry {
    pub name: String,
    pub is_file: bool,
    pub modified: Option<i128>,
}

/// What a [`DirEntry`] stands for.
#[verifier::ext_equal]
pub struct EntryView {
    pub name: Seq<char>,
    pub is_file: bool,
    pub modified: int,
}

impl View for DirEntry {
    type V = EntryView;

    open spec fn view(&self) -> EntryView {
        EntryView {
            name: self.name@,
            is_file: self.is_file,
            modified: match self.modified {
                Some(t) => t as int,
                None => 0,
            },
        }
    }
}

/// What a directory listing stands for.
pub open spec fn listing(entries: Seq<DirEntry>) -> Seq<EntryView> {
    entries.map_values(|e: DirEntry| e@)
}

/// The paths that a list of them stands for.
pub open spec fn paths(list: Seq<StorePath>) -> Seq<PathView> {
    list.map_values(|p: StorePath| p@)
}

/// The index of the last `c` of `s`, or -1.
pub open spec fn last_index(s: Seq<char>, c: char) -> int
    decreases s.len(),
{
    if s.len() == 0 {
        -1
    } else if s.last() == c {
        s.len() - 1
    } else {
        last_index(s.drop_last(), c)
    }
}

/// Whether a name stands for no file of its own: the empty one, the directory itself, its parent.
pub open spec fn is_dots(name: Seq<char>) -> bool {
    name.len() == 0 || name == seq!['.'] || name == seq!['.', '.']
}

/// A file name without its extension: without its last dot and what follows, unless that dot is
/// its first character.
pub open spec fn stem(name: Seq<char>) -> Seq<char> {
    let dot = last_index(name, '.');
    if is_dots(name) {
        Seq::empty()
    } else if dot <= 0 {
        name
    } else {
        name.take(dot)
    }
}

/// The file name of a video.
pub open spec fn file_name(video_id: Seq<char>) -> Seq<char> {
    video_id + ".mp4"@
}

/// A listing with one more file, behind those that are not newer.
pub open spec fn insert_by_age(sorted: Seq<EntryView>, entry: EntryView) -> Seq<EntryView>
    decreases sorted.len(),
{
    if sorted.len() == 0 || sorted.last().modified <= entry.modified {
        sorted.push(entry)
    } else {
        insert_by_age(sorted.drop_last(), entry).push(sorted.last())
    }
}

/// The files of a listing, oldest first; files of one age stay in the order of the listing.
pub open spec fn oldest_first(entries: Seq<EntryView>) -> Seq<EntryView>
    decreases entries.len(),
{
    if entries.len() == 0 {
        Seq::empty()
    } else if entries.last().is_file {
        insert_by_age(oldest_first(entries.drop_last()), entries.last())
    } else {
        oldest_first(entries.drop_last())
    }
}

/// The entries' paths in directory `dir`.
pub open spec fn paths_in(dir: Seq<char>, entries: Seq<EntryView>) -> Seq<PathView> {
    entries.map_values(|e: EntryView| PathView { dir, name: e.name })
}

/// The characters that may stand in a video id.
pub open spec fn id_char(c: char) -> bool {
    'a' <= c <= 'z' || 'A' <= c <= 'Z' || '0' <= c <= '9' || c == '.' || c == '_' || c == '-'
}

/// Whether a video id can be used as a file name.
pub open spec fn usable_id(id: Seq<char>) -> bool {
    &&& 0 < id.len() <= 200
    &&& !is_dots(id)
    &&& forall|i: int| 0 <= i < id.len() ==> id_char(#[trigger] id[i])
}

/// The directories of the store.
pub struct MediaStore {
    pub media_dir: String,
    pub pending_dir: String,
}

impl MediaStore {
    /// The path of a video in `media`.
    pub open spec fn spec_media_file(self, video_id: Seq<char>) -> PathView {
        PathView { dir: self.media_dir@, name: file_name(video_id) }
    }

    /// The path of a video in `pending`.
    pub open spec fn spec_pending_file(self, video_id: Seq<char>) -> PathView {
        PathView { dir: self.pending_dir@, name: file_name(video_id) }
    }

    /// The partials of videos other than `video_id`, given the listing of `pending`.
    pub open spec fn stale_partials(
        self,
        video_id: Seq<char>,
        entries: Seq<EntryView>,
    ) -> Seq<PathView> {
        paths_in(
            self.pending_dir@,
            entries.filter(|e: EntryView| e.is_file && stem(e.name) != video_id),
        )
    }

    /// The media files of videos other than the active one, oldest first, given the listing of
    /// `media`.
    pub open spec fn inactive_files(
        self,
        active: Option<Seq<char>>,
        entries: Seq<EntryView>,
    ) -> Seq<PathView> {
        paths_in(self.media_dir@, inactive(oldest_first(entries), active))
    }

    /// The store's two directories, which its owner creates below the data directory.
    pub fn new() -> (store: Self)
        ensures
            store.media_dir@ == "media"@,
            store.pending_dir@ == "pending"@,
    {
        MediaStore { media_dir: "media".to_owned(), pending_dir: "pending".to_owned() }
    }

    /// Where a video is played from.
    pub fn media_file(&self, video_id: &str) -> (path: StorePath)
        ensures
            path@ == self.spec_media_file(video_id@),
    {
        let mut name = video_id.to_owned();
        name.append(".mp4");
        StorePath { dir: self.media_dir.clone(), name }
    }

    /// Where a video is downloaded to.
    pub fn pending_file(&self, video_id: &str) -> (path: StorePath)
        ensures
            path@ == self.spec_pending_file(video_id@),
    {
        let mut name = video_id.to_owned();
        name.append(".mp4");
        StorePath { dir: self.pending_dir.clone(), name }
    }

    /// Media files, oldest first. A file of unknown age counts as old as the epoch.
    pub fn media_files(&self, entries: &Vec<DirEntry>) -> (files: Vec<StorePath>)
        ensures
            paths(files@) == paths_in(self.media_dir@, oldest_first(listing(entries@))),
    {
        let order = order_by_age(entries);
        let mut files: Vec<StorePath> = Vec::new();
        let ghost sorted = oldest_first(listing(entries@));
        let mut i: usize = 0;
        while i < order.len()
            invariant
                i <= order.len(),
                order@.len() == sorted.len(),
                forall|j: int| 0 <= j < order.len() ==> #[trigger] order[j] < entries.len(),
                forall|j: int| 0 <= j < order.len() ==> entries[#[trigger] order[j] as int]@ == sorted[j],
                files.len() == i,
                forall|j: int|
                    0 <= j < i ==> (#[trigger] files[j])@ == (PathView {
                        dir: self.media_dir@,
                        name: sorted[j].name,
                    }),
            decreases order.len() - i,
        {
            files.push(
                StorePath { dir: self.media_dir.clone(), name: entries[order[i]].name.clone() },
            );
            i += 1;
        }
        assert(paths(files@) =~= paths_in(self.media_dir@, sorted));
        files
    }

    /// The file to play at startup when nothing has told us otherwise.
    pub fn newest_media(&self, entries: &Vec<DirEntry>) -> (newest: Option<StorePath>)
        ensures
            ({
                let files = oldest_first(listing(entries@));
                match newest {
                    Some(path) => files.len() > 0 && path@ == (PathView {
                        dir: self.media_dir@,
                        name: files.last().name,
                    }),
                    None => files.len() == 0,
                }
            }),
    {
        let order = order_by_age(entries);
        if order.len() == 0 {
            return None;
        }
        let newest = &entries[order[order.len() - 1]];
        Some(StorePath { dir: self.media_dir.clone(), name: newest.name.clone() })
    }

    /// The partial downloads of any video other than `video_id`; they are dead weight.
    pub fn clear_stale_pending(
        &self,
        video_id: &str,
        entries: &Vec<DirEntry>,
    ) -> (stale: Vec<StorePath>)
        ensures
            paths(stale@) == self.stale_partials(video_id@, listing(entries@)),
    {
        let mut stale: Vec<StorePath> = Vec::new();
        let ghost p = |e: EntryView| e.is_file && stem(e.name) != video_id@;
        let ghost all = listing(entries@);
        proof {
            reveal_with_fuel(Seq::filter, 1);
            assert(paths(stale@) =~= paths_in(self.pending_dir@, all.take(0).filter(p)));
        }
        let mut i: usize = 0;
        while i < entries.len()
            invariant
                i <= entries.len(),
                all == listing(entries@),
                p == (|e: EntryView| e.is_file && stem(e.name) != video_id@),
                paths(stale@) == paths_in(self.pending_dir@, all.take(i as int).filter(p)),
            decreases entries.len() - i,
        {
            let path = StorePath { dir: self.pending_dir.clone(), name: entries[i].name.clone() };
            let ghost before = stale@;
            proof {
                reveal_with_fuel(Seq::filter, 2);
                assert(all.take(i + 1).drop_last() =~= all.take(i as int));
                assert(all.take(i + 1).last() == entries[i as int]@);
            }
            if entries[i].is_file && !text_eq(video_id_of(&path).as_str(), video_id) {
                stale.push(path);
                proof {
                    assert(paths(stale@) =~= paths(before).push(path@));
                    assert(paths_in(
                        self.pending_dir@,
                        all.take(i as int).filter(p).push(entries[i as int]@),
                    ) =~= paths_in(self.pending_dir@, all.take(i as int).filter(p)).push(path@));
                }
            }
            i += 1;
        }
        assert(all.take(entries@.len() as int) =~= all);
        stale
    }

    /// The media files of videos other than `active_video_id`, oldest first: everything that
    /// retention deletes.
    ///
    /// A deletion that fails is not an error. On Windows the outgoing file can stay locked for a
    /// moment after the switch, and a leftover video costs disk, not correctness; the next swap
    /// and the next startup both try again.
    pub fn retain_only(
        &self,
        active_video_id: &str,
        entries: &Vec<DirEntry>,
    ) -> (outdated: Vec<StorePath>)
        ensures
            paths(outdated@) == self.inactive_files(Some(active_video_id@), listing(entries@)),
    {
        self.inactive_media(Some(active_video_id), entries)
    }

    /// The media files of videos other than the active one, oldest first.
    fn inactive_media(
        &self,
        active: Option<&str>,
        entries: &Vec<DirEntry>,
    ) -> (files: Vec<StorePath>)
        ensures
            paths(files@) == self.inactive_files(text::opt_str(active), listing(entries@)),
    {
        let all = self.media_files(entries);
        let ghost sorted = oldest_first(listing(entries@));
        let ghost p = |e: EntryView| text::opt_str(active) != Some(stem(e.name));
        let mut files: Vec<StorePath> = Vec::new();
        proof {
            reveal_with_fuel(Seq::filter, 1);
            assert(paths(files@) =~= paths_in(self.media_dir@, sorted.take(0).filter(p)));
            assert(paths(all@).len() == sorted.len());
        }
        let mut i: usize = 0;
        while i < all.len()
            invariant
                i <= all.len(),
                all@.len() == sorted.len(),
                paths(all@) == paths_in(self.media_dir@, sorted),
                p == (|e: EntryView| text::opt_str(active) != Some(stem(e.name))),
                paths(files@) == paths_in(self.media_dir@, sorted.take(i as int).filter(p)),
            decreases all.len() - i,
        {
            let ghost before = files@;
            proof {
                reveal_with_fuel(Seq::filter, 2);
                assert(sorted.take(i + 1).drop_last() =~= sorted.take(i as int));
                assert(paths(all@)[i as int] == all[i as int]@);
                assert(paths_in(self.media_dir@, sorted)[i as int] == all[i as int]@);
            }
            let keep = match active {
                Some(id) => text_eq(video_id_of(&all[i]).as_str(), id),
                None => false,
            };
            if !keep {
                files.push(all[i].clone());
                proof {
                    assert(paths(files@) =~= paths(before).push(all[i as int]@));
                    assert(paths_in(
                        self.media_dir@,
                        sorted.take(i as int).filter(p).push(sorted[i as int]),
                    ) =~= paths_in(self.media_dir@, sorted.take(i as int).filter(p)).push(
                        all[i as int]@,
                    ));
                }
            }
            i += 1;
        }
        assert(sorted.take(all@.len() as int) =~= sorted);
        files
    }

    /// Makes room for a download, evicting inactive media files oldest-first if needed. The
    /// check goes on with [`SpaceCheck::measured`].
    ///
    /// The requirement is one and a half times the size, the file itself plus 50% headroom,
    /// except that bytes already on disk from an interrupted attempt are discounted, so a resume
    /// near completion is not blocked by a full-size check it no longer needs.
    pub fn ensure_space_for(&self, size_bytes: u64, already_have: u64) -> (check: SpaceCheck)
        requires
            required_bytes(size_bytes as nat, already_have as nat) <= u64::MAX,
        ensures
            check@ == (SpaceView::Unlisted {
                required: required_bytes(size_bytes as nat, already_have as nat) as u64,
            }),
    {
        let remaining: u64 = size_bytes.saturating_sub(already_have);
        SpaceCheck::Unlisted { required: remaining + size_bytes / 2 }
    }

    /// How a verified download moves into place: by a rename within the data directory, over
    /// whatever had its name.
    ///
    /// A rename is atomic, so `media` never contains a half-written file. The target may still
    /// be held open by the webview, and Windows refuses to delete an open file, so the screen
    /// must have let go of it first.
    pub fn promote(&self, video_id: &str, target_exists: bool) -> (promotion: Promotion)
        ensures
            promotion.remove_first == target_exists,
            promotion.source@ == self.spec_pending_file(video_id@),
            promotion.target@ == self.spec_media_file(video_id@),
    {
        Promotion {
            remove_first: target_exists,
            source: self.pending_file(video_id),
            target: self.media_file(video_id),
        }
    }
}

/// Whether a download has the room it needs.
#[derive(Debug, PartialEq, Eq)]
pub enum Space {
    Enough,
    Insufficient { required_bytes: u64, free_bytes: u64 },
}

/// The room that a download of `size` bytes needs when `have` bytes of it are on disk: what is
/// missing, and half the file again so that the outgoing and incoming videos can coexist across
/// the swap.
pub open spec fn required_bytes(size: nat, have: nat) -> nat {
    (if have < size {
        (size - have) as nat
    } else {
        0
    }) + size / 2
}

/// A check for room that is under way: before the media directory has been looked at, with
/// inactive files left to evict, or with none left. It goes on when the free space has been
/// measured.
#[derive(Debug)]
pub enum SpaceCheck {
    Unlisted { required: u64 },
    Evicting { required: u64, left: Vec<StorePath> },
    Exhausted { required: u64 },
}

/// What a [`SpaceCheck`] stands for.
#[verifier::ext_equal]
pub enum SpaceView {
    Unlisted { required: u64 },
    Evicting { required: u64, left: Seq<PathView> },
    Exhausted { required: u64 },
}

impl View for SpaceCheck {
    type V = SpaceView;

    open spec fn view(&self) -> SpaceView {
        match *self {
            SpaceCheck::Unlisted { required } => SpaceView::Unlisted { required },
            SpaceCheck::Evicting { required, left } => SpaceView::Evicting {
                required,
                left: paths(left@),
            },
            SpaceCheck::Exhausted { required } => SpaceView::Exhausted { required },
        }
    }
}

/// What to do next for the sake of room: nothing, list the media directory, delete a file and
/// measure again, or just measure again.
#[derive(Debug)]
pub enum SpaceStep {
    Done(Space),
    List(SpaceListing),
    Evict { file: StorePath, then: SpaceCheck },
    Measure(SpaceCheck),
}

/// A check for room that waits for the media directory's listing.
#[derive(Debug)]
pub struct SpaceListing {
    pub required: u64,
}

/// What a [`SpaceStep`] stands for.
#[verifier::ext_equal]
pub enum SpaceStepView {
    Done(Space),
    List { required: u64 },
    Evict { file: PathView, then: SpaceView },
    Measure(SpaceView),
}

impl View for SpaceStep {
    type V = SpaceStepView;

    open spec fn view(&self) -> SpaceStepView {
        match *self {
            SpaceStep::Done(space) => SpaceStepView::Done(space),
            SpaceStep::List(listing) => SpaceStepView::List { required: listing.required },
            SpaceStep::Evict { file, then } => SpaceStepView::Evict { file: file@, then: then@ },
            SpaceStep::Measure(check) => SpaceStepView::Measure(check@),
        }
    }
}

/// The next of the inactive files goes; with none left, the free space is measured for the
/// report.
pub open spec fn offer(required: u64, left: Seq<PathView>) -> SpaceStepView {
    if left.len() == 0 {
        SpaceStepView::Measure(SpaceView::Exhausted { required })
    } else {
        SpaceStepView::Evict {
            file: left.first(),
            then: SpaceView::Evicting { required, left: left.drop_first() },
        }
    }
}

/// How a check for room goes on with `free` bytes on the disk.
pub open spec fn measured(check: SpaceView, free: u64) -> SpaceStepView {
    match check {
        SpaceView::Unlisted { required } => if free >= required {
            SpaceStepView::Done(Space::Enough)
        } else {
            SpaceStepView::List { required }
        },
        SpaceView::Evicting { required, left } => if free >= required {
            SpaceStepView::Done(Space::Enough)
        } else {
            offer(required, left)
        },
        SpaceView::Exhausted { required } => SpaceStepView::Done(
            Space::Insufficient { required_bytes: required, free_bytes: free },
        ),
    }
}

impl SpaceCheck {
    /// Goes on with the check once the free space is known.
    pub fn measured(self, free: u64) -> (step: SpaceStep)
        ensures
            step@ == measured(self@, free),
    {
        match self {
            SpaceCheck::Unlisted { required } => {
                if free >= required {
                    SpaceStep::Done(Space::Enough)
                } else {
                    SpaceStep::List(SpaceListing { required })
                }
            },
            SpaceCheck::Evicting { required, left } => {
                if free >= required {
                    SpaceStep::Done(Space::Enough)
                } else {
                    offer_next(required, left)
                }
            },
            SpaceCheck::Exhausted { required } => {
                SpaceStep::Done(
                    Space::Insufficient { required_bytes: required, free_bytes: free },
                )
            },
        }
    }
}

impl SpaceListing {
    /// Goes on with the check once the media directory has been listed: its inactive files are
    /// evicted oldest first, as long as that is needed.
    pub fn listed(
        self,
        store: &MediaStore,
        active_video_id: Option<&str>,
        entries: &Vec<DirEntry>,
    ) -> (step: SpaceStep)
        ensures
            step@ == offer(
                self.required,
                store.inactive_files(text::opt_str(active_video_id), listing(entries@)),
            ),
    {
        offer_next(self.required, store.inactive_media(active_video_id, entries))
    }
}

/// The next of the inactive files, or a last measurement.
fn offer_next(required: u64, left: Vec<StorePath>) -> (step: SpaceStep)
    ensures
        step@ == offer(required, paths(left@)),
{
    if left.len() == 0 {
        SpaceStep::Measure(SpaceCheck::Exhausted { required })
    } else {
        let mut left = left;
        let ghost before = left@;
        let file = left.remove(0);
        proof {
            assert(paths(left@) =~= paths(before).drop_first());
        }
        SpaceStep::Evict { file, then: SpaceCheck::Evicting { required, left } }
    }
}

/// What a whole check for room does, when `free` lists what the measurements give one after the
/// other and `inactive` is what the listing gives: the files it evicts, and its answer. Nothing
/// where the measurements run out before it ends.
pub open spec fn space_run(
    check: SpaceView,
    inactive: Seq<PathView>,
    free: Seq<u64>,
) -> Option<(Seq<PathView>, Space)>
    decreases free.len(), 1int,
{
    if free.len() == 0 {
        None
    } else {
        match measured(check, free.first()) {
            SpaceStepView::Done(space) => Some((Seq::empty(), space)),
            SpaceStepView::List { required } => space_goes_on(
                offer(required, inactive),
                inactive,
                free,
            ),
            step => space_goes_on(step, inactive, free),
        }
    }
}

/// The rest of [`space_run`] behind a step that its first measurement led to.
pub open spec fn space_goes_on(
    step: SpaceStepView,
    inactive: Seq<PathView>,
    free: Seq<u64>,
) -> Option<(Seq<PathView>, Space)>
    decreases free.len(), 0int,
    when free.len() > 0
{
    match step {
        SpaceStepView::Evict { file, then } => match space_run(then, inactive, free.drop_first()) {
            Some((evicted, space)) => Some((seq![file] + evicted, space)),
            None => None,
        },
        SpaceStepView::Measure(check) => space_run(check, inactive, free.drop_first()),
        _ => None,
    }
}

/// The files of `files` that are not those of the active video.
pub open spec fn inactive(files: Seq<EntryView>, active: Option<Seq<char>>) -> Seq<EntryView> {
    files.filter(|e: EntryView| active != Some(stem(e.name)))
}

/// A move from `pending` to `media`: delete `target` first where it exists, then rename `source`
/// to it.
#[derive(Debug)]
pub struct Promotion {
    pub remove_first: bool,
    pub source: StorePath,
    pub target: StorePath,
}

/// The id of the video in a file.
pub fn video_id_of(path: &StorePath) -> (id: String)
    ensures
        id@ == stem(path.name@),
{
    let chars = chars_of(path.name.as_str());
    let dots = chars.len() == 0 || (chars.len() == 1 && chars[0] == '.') || (chars.len() == 2
        && chars[0] == '.' && chars[1] == '.');
    proof {
        let name = path.name@;
        assert(dots == is_dots(name)) by {
            if name.len() == 1 && name[0] == '.' {
                assert(name =~= seq!['.']);
            }
            if name.len() == 2 && name[0] == '.' && name[1] == '.' {
                assert(name =~= seq!['.', '.']);
            }
        }
        assert(name.take(name.len() as int) =~= name);
    }
    if dots {
        return String::new();
    }
    let mut i: usize = chars.len();
    while i > 0 && chars[i - 1] != '.'
        invariant
            i <= chars.len(),
            chars@ == path.name@,
            last_index(path.name@, '.') == last_index(path.name@.take(i as int), '.'),
        decreases i,
    {
        proof {
            assert(path.name@.take(i as int).drop_last() =~= path.name@.take(i - 1));
        }
        i -= 1;
    }
    if i <= 1 {
        return path.name.clone();
    }
    proof {
        assert(path.name@.subrange(0, i - 1) =~= path.name@.take(i - 1));
    }
    path.name.as_str().substring_char(0, i - 1).to_owned()
}

/// Refuses anything that the server itself would not have accepted on upload
/// (`^[a-zA-Z0-9._-]+$`): an id goes straight into a path, and Windows forbids a wide set of
/// characters besides.
pub fn sanitize_video_id(video_id: &str) -> (id: Option<&str>)
    ensures
        match id {
            Some(id) => usable_id(video_id@) && id@ == video_id@,
            None => !usable_id(video_id@),
        },
{
    let chars = chars_of(video_id);
    if chars.len() == 0 || chars.len() > 200 {
        return None;
    }
    if text_eq(video_id, ".") || text_eq(video_id, "..") {
        proof {
            reveal_strlit(".");
            reveal_strlit("..");
            assert("."@ =~= seq!['.']);
            assert(".."@ =~= seq!['.', '.']);
        }
        return None;
    }
    proof {
        reveal_strlit(".");
        reveal_strlit("..");
        assert("."@ =~= seq!['.']);
        assert(".."@ =~= seq!['.', '.']);
    }
    let mut i: usize = 0;
    while i < chars.len()
        invariant
            i <= chars.len(),
            chars@ == video_id@,
            forall|j: int| 0 <= j < i ==> id_char(#[trigger] video_id@[j]),
        decreases chars.len() - i,
    {
        let c = chars[i];
        if !(('a' <= c && c <= 'z') || ('A' <= c && c <= 'Z') || ('0' <= c && c <= '9') || c == '.' || c
            == '_' || c == '-') {
            assert(!id_char(video_id@[i as int]));
            return None;
        }
        i += 1;
    }
    Some(video_id)
}

/// When an entry was last changed, as far as is known.
fn age_of(entry: &DirEntry) -> (modified: i128)
    ensures
        modified == entry@.modified,
{
    match entry.modified {
        Some(t) => t,
        None => 0,
    }
}

/// The indices of the files of a listing, oldest first.
fn order_by_age(entries: &Vec<DirEntry>) -> (order: Vec<usize>)
    ensures
        order@.len() == oldest_first(listing(entries@)).len(),
        forall|j: int| 0 <= j < order.len() ==> #[trigger] order[j] < entries.len(),
        forall|j: int|
            0 <= j < order.len() ==> entries[#[trigger] order[j] as int]@ == oldest_first(
                listing(entries@),
            )[j],
{
    let mut order: Vec<usize> = Vec::new();
    let mut i: usize = 0;
    while i < entries.len()
        invariant
            i <= entries.len(),
            order@.len() == oldest_first(listing(entries@).take(i as int)).len(),
            forall|j: int| 0 <= j < order.len() ==> #[trigger] order[j] < i,
            forall|j: int|
                0 <= j < order.len() ==> entries[#[trigger] order[j] as int]@ == oldest_first(
                    listing(entries@).take(i as int),
                )[j],
        decreases entries.len() - i,
    {
        let ghost so_far = oldest_first(listing(entries@).take(i as int));
        let ghost before = order@;
        proof {
            assert(listing(entries@).take(i + 1).drop_last() =~= listing(entries@).take(i as int));
            assert(listing(entries@).take(i + 1).last() == entries[i as int]@);
        }
        if entries[i].is_file {
            let age = age_of(&entries[i]);
            let mut at: usize = order.len();
            proof {
                assert(so_far.take(at as int) =~= so_far);
                assert(insert_by_age(so_far, entries[i as int]@) + so_far.skip(at as int)
                    =~= insert_by_age(so_far, entries[i as int]@));
            }
            while at > 0 && age_of(&entries[order[at - 1]]) > age
                invariant
                    at <= order.len(),
                    i < entries.len(),
                    order@ == before,
                    so_far.len() == order.len(),
                    age == entries[i as int]@.modified,
                    forall|j: int| 0 <= j < order.len() ==> #[trigger] order[j] < i,
                    forall|j: int|
                        0 <= j < order.len() ==> entries[#[trigger] order[j] as int]@ == so_far[j],
                    insert_by_age(so_far, entries[i as int]@) == insert_by_age(
                        so_far.take(at as int),
                        entries[i as int]@,
                    ) + so_far.skip(at as int),
                decreases at,
            {
                proof {
                    assert(so_far.take(at as int).drop_last() =~= so_far.take(at - 1));
                    assert(so_far.take(at as int).last() == entries[order[at - 1] as int]@);
                    assert(insert_by_age(so_far.take(at - 1), entries[i as int]@).push(
                        so_far[at - 1],
                    ) + so_far.skip(at as int) =~= insert_by_age(
                        so_far.take(at - 1),
                        entries[i as int]@,
                    ) + so_far.skip(at - 1));
                }
                at -= 1;
            }
            order.insert(at, i);
            proof {
                if at > 0 {
                    assert(so_far.take(at as int).last() == entries[before[at - 1] as int]@);
                }
                let now = insert_by_age(so_far, entries[i as int]@);
                assert(now =~= so_far.take(at as int).push(entries[i as int]@) + so_far.skip(
                    at as int,
                ));
                assert forall|j: int| 0 <= j < order.len() implies entries[#[trigger] order[j] as int]@
                    == now[j] by {
                    if j < at {
                        assert(order[j] == before[j]);
                    } else if j > at {
                        assert(order[j] == before[j - 1]);
                    }
                }
            }
        }
        i += 1;
    }
    assert(listing(entries@).take(entries@.len() as int) =~= listing(entries@));
    order
}

} // verus!
