//! The rules of the media store.

use std::collections::BTreeMap;

use signage_desktop::store::{
    sanitize_video_id, video_id_of, DirEntry, MediaStore, Space, SpaceCheck, SpaceStep, StorePath,
};

/// A disk in memory: what each file holds, and when it was written.
struct Files(BTreeMap<(String, String), (Vec<u8>, i128)>);

impl Files {
    fn new() -> Self {
        Files(BTreeMap::new())
    }

    fn write(&mut self, path: StorePath, bytes: &[u8], modified: i128) {
        self.0
            .insert((path.dir, path.name), (bytes.to_vec(), modified));
    }

    fn remove(&mut self, path: &StorePath) {
        self.0.remove(&(path.dir.clone(), path.name.clone()));
    }

    fn has(&self, path: &StorePath) -> bool {
        self.0.contains_key(&(path.dir.clone(), path.name.clone()))
    }

    fn list(&self, dir: &str) -> Vec<DirEntry> {
        self.0
            .iter()
            .filter(|(path, _)| path.0 == dir)
            .map(|(path, file)| DirEntry {
                name: path.1.clone(),
                is_file: true,
                modified: Some(file.1),
            })
            .collect()
    }
}

fn names(paths: &[StorePath]) -> Vec<&str> {
    paths.iter().map(|p| p.name.as_str()).collect()
}

#[test]
fn rejects_ids_that_would_escape_the_media_directory() {
    assert_eq!(sanitize_video_id("campaign_98x"), Some("campaign_98x"));
    assert_eq!(sanitize_video_id("vid.2026-08_promo"), Some("vid.2026-08_promo"));
    assert_eq!(sanitize_video_id("../../etc/passwd"), None);
    assert_eq!(sanitize_video_id("..\\windows\\system32"), None);
    assert_eq!(sanitize_video_id("has space"), None);
    assert_eq!(sanitize_video_id("c:evil"), None);
    assert_eq!(sanitize_video_id(".."), None);
    assert_eq!(sanitize_video_id(""), None);
}

#[test]
fn ids_at_the_edges() {
    assert_eq!(sanitize_video_id("."), None);
    assert_eq!(sanitize_video_id("..."), Some("..."));
    assert_eq!(sanitize_video_id("vídeo"), None);
    let long = "a".repeat(200);
    assert_eq!(sanitize_video_id(&long), Some(long.as_str()));
    assert_eq!(sanitize_video_id(&"a".repeat(201)), None);
}

#[test]
fn newest_media_wins_and_retention_clears_the_rest() {
    let store = MediaStore::new();
    let mut files = Files::new();
    files.write(store.media_file("old"), b"old", 1);
    files.write(store.media_file("new"), b"new", 2);

    let newest = store.newest_media(&files.list("media")).unwrap();
    assert_eq!(video_id_of(&newest), "new");

    for file in store.retain_only("new", &files.list("media")) {
        files.remove(&file);
    }
    assert!(files.has(&store.media_file("new")));
    assert!(!files.has(&store.media_file("old")));
}

#[test]
fn promote_moves_the_pending_file_over_the_active_one() {
    let store = MediaStore::new();
    let mut files = Files::new();
    files.write(store.media_file("v1"), b"stale", 1);
    files.write(store.pending_file("v1"), b"fresh", 2);

    let promotion = store.promote("v1", files.has(&store.media_file("v1")));
    assert!(promotion.remove_first);
    files.remove(&promotion.target);
    let key = (promotion.source.dir, promotion.source.name);
    let moved = files.0.remove(&key).unwrap();
    assert_eq!(promotion.target, store.media_file("v1"));
    files.write(promotion.target, &moved.0, moved.1);

    let key = ("media".to_string(), "v1.mp4".to_string());
    assert_eq!(files.0[&key].0, b"fresh");
    assert!(!files.has(&store.pending_file("v1")));
    assert!(!store.promote("v2", false).remove_first);
}

#[test]
fn stale_partials_are_discarded_but_the_wanted_one_is_kept() {
    let store = MediaStore::new();
    let mut files = Files::new();
    files.write(store.pending_file("wanted"), b"keep", 1);
    files.write(store.pending_file("abandoned"), b"drop", 1);

    for file in store.clear_stale_pending("wanted", &files.list("pending")) {
        files.remove(&file);
    }
    assert!(files.has(&store.pending_file("wanted")));
    assert!(!files.has(&store.pending_file("abandoned")));
}

fn space(check: SpaceCheck, free: u64) -> Option<Space> {
    match check.measured(free) {
        SpaceStep::Done(space) => Some(space),
        _ => None,
    }
}

#[test]
fn a_resumed_download_only_needs_the_bytes_it_is_missing() {
    let store = MediaStore::new();
    // Nothing on disk yet: the whole file plus 50% headroom.
    assert_eq!(space(store.ensure_space_for(1_000, 0), 1_500), Some(Space::Enough));
    assert_eq!(space(store.ensure_space_for(1_000, 0), 1_499), None);
    // 900 of 1000 bytes already fetched: the check must not still demand 1500.
    assert_eq!(space(store.ensure_space_for(1_000, 900), 600), Some(Space::Enough));
    assert_eq!(space(store.ensure_space_for(1_000, 900), 599), None);
    // More than the file has is no credit for the headroom.
    assert_eq!(space(store.ensure_space_for(1_001, 5_000), 500), Some(Space::Enough));
    assert_eq!(space(store.ensure_space_for(1_001, 5_000), 499), None);
}

#[test]
fn media_files_come_oldest_first_and_equal_ages_keep_their_order() {
    let store = MediaStore::new();
    let entry = |name: &str, is_file, modified| DirEntry {
        name: name.into(),
        is_file,
        modified,
    };
    let entries = vec![
        entry("c.mp4", true, Some(30)),
        entry("dir", false, Some(1)),
        entry("a.mp4", true, Some(10)),
        entry("unknown.mp4", true, None),
        entry("b.mp4", true, Some(10)),
        entry("before.mp4", true, Some(-7)),
    ];
    let files = store.media_files(&entries);
    assert_eq!(
        names(&files),
        ["before.mp4", "unknown.mp4", "a.mp4", "b.mp4", "c.mp4"]
    );
    assert!(files.iter().all(|f| f.dir == "media"));
    assert!(store.newest_media(&vec![]).is_none());
}

#[test]
fn eviction_goes_oldest_first_and_spares_the_active_video() {
    let store = MediaStore::new();
    let mut files = Files::new();
    files.write(store.media_file("active"), b"", 1);
    files.write(store.media_file("older"), b"", 2);
    files.write(store.media_file("newer"), b"", 3);

    let SpaceStep::List(listing) = store.ensure_space_for(1_000, 0).measured(10) else {
        panic!("there is no room yet");
    };
    let step = listing.listed(&store, Some("active"), &files.list("media"));
    let SpaceStep::Evict { file, then } = step else {
        panic!("the oldest inactive file goes");
    };
    assert_eq!(file, store.media_file("older"));
    let SpaceStep::Evict { file, then } = then.measured(20) else {
        panic!("then the next");
    };
    assert_eq!(file, store.media_file("newer"));
    // Room now: eviction stops.
    let SpaceStep::Measure(last) = then.measured(30) else {
        panic!("nothing is left to evict");
    };
    assert_eq!(
        space(last, 31),
        Some(Space::Insufficient {
            required_bytes: 1_500,
            free_bytes: 31
        })
    );
}

#[test]
fn eviction_stops_when_there_is_room() {
    let store = MediaStore::new();
    let mut files = Files::new();
    files.write(store.media_file("a"), b"", 1);
    files.write(store.media_file("b"), b"", 2);
    let SpaceStep::List(listing) = store.ensure_space_for(1_000, 0).measured(0) else {
        panic!("there is no room yet");
    };
    let SpaceStep::Evict { then, .. } = listing.listed(&store, None, &files.list("media")) else {
        panic!("the oldest goes");
    };
    assert_eq!(space(then, 1_500), Some(Space::Enough));
}

#[test]
fn the_id_of_a_file_is_its_name_without_the_extension() {
    let id = |name: &str| {
        video_id_of(&StorePath {
            dir: "media".into(),
            name: name.into(),
        })
    };
    assert_eq!(id("v1.mp4"), "v1");
    assert_eq!(id("vid.2026-08.mp4"), "vid.2026-08");
    assert_eq!(id("noext"), "noext");
    assert_eq!(id(".hidden"), ".hidden");
    assert_eq!(id("a."), "a");
    assert_eq!(id(".."), "");
    let store = MediaStore::new();
    assert_eq!(video_id_of(&store.media_file("v.1")), "v.1");
    assert_eq!(video_id_of(&store.pending_file("v.1")), "v.1");
}
