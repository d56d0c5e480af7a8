//! Downloads, run against a disk and a server in memory.

use sha2::{Digest, Sha256};

use signage_desktop::download::{
    Failure, Request, DISK_FULL, HASH_MISMATCH, HTTP_ERROR, INCOMPLETE, NETWORK_ERROR,
    PROMOTE_FAILED, RANGE_REJECTED, SIZE_MISMATCH,
};
use signage_desktop::fetch::{Action, Download, Event, Phase};
use signage_desktop::media_server::parse_range;
use signage_desktop::store::{DirEntry, MediaStore, StorePath};
use signage_desktop::text::hex;

const ABC: &str = "ba7816bf8f01cfea414140de5dae2223b00361a396177a9cb410ff61f20015ad";

fn request(size_bytes: u64, sha256: &str) -> Request {
    Request {
        video_id: "v1".into(),
        url: "http://h/media/v1.mp4".into(),
        sha256: sha256.into(),
        size_bytes,
    }
}

fn digest_of(bytes: &[u8]) -> String {
    hex(&Sha256::digest(bytes))
}

/// How the server behaves.
enum Server {
    /// Serves the file, with ranges, in chunks of this size.
    Ranges(Vec<u8>, usize),
    /// Serves the file from its beginning, whatever was asked for.
    Whole(Vec<u8>),
    Status(u16),
    Unreachable,
    /// Serves so many bytes of the file, then breaks off.
    Breaks(Vec<u8>, usize),
}

struct World {
    partial: Option<Vec<u8>>,
    media: Option<Vec<u8>>,
    free: u64,
    others: Vec<DirEntry>,
    server: Server,
    /// Bytes of the partial that can actually be read.
    readable: usize,
    promote_error: Option<String>,
    asked: Vec<Vec<(String, String)>>,
    evicted: Vec<String>,
    swept: Vec<String>,
    progress: Vec<u8>,
    cut_at: Option<u64>,
}

fn world(server: Server) -> World {
    World {
        partial: None,
        media: None,
        free: 1_000_000_000,
        others: vec![],
        server,
        readable: usize::MAX,
        promote_error: None,
        asked: vec![],
        evicted: vec![],
        swept: vec![],
        progress: vec![],
        cut_at: None,
    }
}

/// Runs a download to its end.
fn run(world: &mut World, request: Request, active: Option<&str>) -> Result<StorePath, Failure> {
    let store = MediaStore::new();
    let (mut download, mut action) = Download::new(request, active.map(str::to_string));
    let mut at = 0usize;
    let mut chunks: Vec<Vec<u8>> = vec![];
    let mut breaks = false;
    loop {
        let event = match action {
            Action::ListPending => Event::Entries(vec![
                DirEntry {
                    name: "v0.mp4".into(),
                    is_file: true,
                    modified: None,
                },
                DirEntry {
                    name: "v1.mp4".into(),
                    is_file: true,
                    modified: None,
                },
            ]),
            Action::Delete(files) => {
                world.swept = files.into_iter().map(|f| f.name).collect();
                Event::Done
            }
            Action::SizePartial(path) => {
                assert_eq!(path, store.pending_file("v1"));
                Event::Size(world.partial.as_ref().map(|p| p.len() as u64))
            }
            Action::MeasureFree => Event::Free(world.free),
            Action::ListMedia => Event::Entries(std::mem::take(&mut world.others)),
            Action::Evict(path) => {
                world.evicted.push(path.name);
                world.free += 1_000;
                Event::Done
            }
            Action::RemovePartial(path) => {
                assert_eq!(path, store.pending_file("v1"));
                world.partial = None;
                Event::Done
            }
            Action::OpenPartial(_) => {
                at = 0;
                if world.readable == 0 {
                    Event::Failed("locked".into())
                } else {
                    Event::Done
                }
            }
            Action::ReadPartial(want) => {
                assert!(want <= 65_536);
                let partial = world.partial.as_ref().unwrap();
                let end = partial.len().min(world.readable).min(at + want);
                let bytes = partial[at.min(end)..end].to_vec();
                at = end;
                Event::Read(bytes)
            }
            Action::Ask { url, headers } => {
                assert_eq!(url, "http://h/media/v1.mp4");
                let range = headers
                    .iter()
                    .find(|h| h.0 == "Range")
                    .and_then(|h| parse_range(&h.1))
                    .map_or(0, |r| r.0 as usize);
                world.asked.push(headers);
                match &world.server {
                    Server::Ranges(file, size) => {
                        if range > file.len() || (range > 0 && range == file.len()) {
                            Event::Status(416)
                        } else {
                            chunks = file[range..].chunks(*size).map(|c| c.to_vec()).collect();
                            Event::Status(if range > 0 { 206 } else { 200 })
                        }
                    }
                    Server::Whole(file) => {
                        chunks = vec![file.clone()];
                        Event::Status(200)
                    }
                    Server::Status(status) => Event::Status(*status),
                    Server::Unreachable => Event::Failed("no route".into()),
                    Server::Breaks(file, n) => {
                        chunks = vec![file[range..*n].to_vec()];
                        breaks = true;
                        Event::Status(206)
                    }
                }
            }
            Action::Cut { partial, at } => {
                assert_eq!(partial, store.pending_file("v1"));
                let mut bytes = world.partial.take().unwrap_or_default();
                bytes.resize(at as usize, 0);
                world.partial = Some(bytes);
                world.cut_at = Some(at);
                Event::Done
            }
            Action::Receive { progress } => {
                world.progress.extend(progress);
                if chunks.is_empty() {
                    if breaks {
                        Event::Failed("reset".into())
                    } else {
                        Event::Ended
                    }
                } else {
                    let chunk = chunks.remove(0);
                    world.partial.as_mut().unwrap().extend(&chunk);
                    Event::Chunk(chunk)
                }
            }
            Action::Flush => Event::Done,
            Action::Find(path) => {
                assert_eq!(path, store.media_file("v1"));
                Event::Found(world.media.is_some())
            }
            Action::Promote(promotion) => {
                assert_eq!(promotion.source, store.pending_file("v1"));
                assert_eq!(promotion.target, store.media_file("v1"));
                assert_eq!(promotion.remove_first, world.media.is_some());
                match world.promote_error.take() {
                    Some(error) => Event::Failed(error),
                    None => {
                        world.media = world.partial.take();
                        Event::Done
                    }
                }
            }
            Action::Finish(result) => return result,
        };
        assert!(download.takes(&event));
        (download, action) = download.step(&store, event);
    }
}

fn failure(result: Result<StorePath, Failure>) -> (&'static str, String, bool) {
    let failure = result.unwrap_err();
    (failure.code, failure.detail, failure.resumable)
}

#[test]
fn a_fresh_download_arrives_and_is_promoted() {
    let mut world = world(Server::Ranges(b"abc".to_vec(), 1));
    // The announced digest may be in upper case.
    let file = run(&mut world, request(3, &ABC.to_uppercase()), None).unwrap();
    assert_eq!(file, MediaStore::new().media_file("v1"));
    assert_eq!(world.media.as_deref(), Some(b"abc".as_slice()));
    assert_eq!(world.partial, None);
    assert_eq!(world.progress, [33, 66, 100]);
    assert_eq!(world.swept, ["v0.mp4"]);
    assert_eq!(
        world.asked,
        [vec![(
            "ngrok-skip-browser-warning".to_string(),
            "true".to_string()
        )]]
    );
}

#[test]
fn replaying_a_partial_produces_the_same_digest_as_hashing_it_whole() {
    // 150 KB so the replay loop runs over several buffers.
    let body: Vec<u8> = (0..150_000u32).map(|i| (i % 251) as u8).collect();
    let mut whole = body.clone();
    whole.extend((0..150_000u32).map(|i| (i % 13) as u8));

    let mut world = world(Server::Ranges(whole.clone(), 70_000));
    world.partial = Some(body);
    run(&mut world, request(300_000, &digest_of(&whole)), None).unwrap();
    assert_eq!(world.cut_at, Some(150_000));
    assert_eq!(
        world.asked[0][1],
        ("Range".to_string(), "bytes=150000-".to_string())
    );
    assert_eq!(world.media, Some(whole));
    assert_eq!(world.progress, [73, 96, 100]);
}

#[test]
fn a_partial_bigger_than_the_expected_file_is_discarded() {
    let mut world = world(Server::Unreachable);
    world.partial = Some(vec![0u8; 500]);
    let (code, ..) = failure(run(&mut world, request(400, ABC), None));
    assert_eq!(code, NETWORK_ERROR);
    assert_eq!(world.partial, None, "the oversized partial should be gone");
    assert_eq!(world.asked[0].len(), 1, "and the transfer starts at zero");
}

#[test]
fn a_missing_partial_simply_starts_at_zero() {
    let mut world = world(Server::Ranges(b"abc".to_vec(), 3));
    run(&mut world, request(3, ABC), None).unwrap();
    assert_eq!(world.cut_at, Some(0));
}

#[test]
fn a_shrunken_partial_counts_as_far_as_it_was_hashed() {
    let mut world = world(Server::Ranges(b"abc".to_vec(), 3));
    world.partial = Some(b"ab".to_vec());
    world.readable = 1;
    run(&mut world, request(3, ABC), None).unwrap();
    assert_eq!(world.cut_at, Some(1));
    assert_eq!(world.media.as_deref(), Some(b"abc".as_slice()));
}

#[test]
fn an_ignored_range_starts_over() {
    let mut world = world(Server::Whole(b"abc".to_vec()));
    world.partial = Some(b"zz".to_vec());
    run(&mut world, request(3, ABC), None).unwrap();
    assert_eq!(world.cut_at, Some(0));
    assert_eq!(world.media.as_deref(), Some(b"abc".as_slice()));
}

#[test]
fn a_rejected_range_drops_the_partial_and_may_be_retried() {
    let mut world = world(Server::Ranges(b"abc".to_vec(), 3));
    world.partial = Some(b"abc".to_vec());
    assert_eq!(
        failure(run(&mut world, request(4, ABC), None)),
        (RANGE_REJECTED, "server rejected range at 3".into(), true)
    );
    assert_eq!(world.partial, None);
}

#[test]
fn server_errors_may_be_retried_and_client_errors_not() {
    for (status, resumable) in [(503, true), (500, true), (404, false), (301, false)] {
        let mut world = world(Server::Status(status));
        assert_eq!(
            failure(run(&mut world, request(3, ABC), None)),
            (
                HTTP_ERROR,
                format!("HTTP {status} for http://h/media/v1.mp4"),
                resumable
            )
        );
    }
}

#[test]
fn a_broken_transfer_keeps_its_partial_and_is_resumed() {
    let mut world = world(Server::Breaks(b"abc".to_vec(), 2));
    assert_eq!(
        failure(run(&mut world, request(3, ABC), None)),
        (NETWORK_ERROR, "reset".into(), true)
    );
    assert_eq!(world.partial.as_deref(), Some(b"ab".as_slice()));
    world.server = Server::Ranges(b"abc".to_vec(), 3);
    run(&mut world, request(3, ABC), None).unwrap();
    assert_eq!(world.cut_at, Some(2));
    assert_eq!(world.media.as_deref(), Some(b"abc".as_slice()));
}

#[test]
fn an_unreadable_partial_is_not_resumed() {
    let mut world = world(Server::Unreachable);
    world.partial = Some(b"a".to_vec());
    world.readable = 0;
    assert_eq!(
        failure(run(&mut world, request(3, ABC), None)),
        (NETWORK_ERROR, "locked".into(), false)
    );
}

#[test]
fn an_incomplete_transfer_keeps_its_partial() {
    let mut world = world(Server::Whole(b"ab".to_vec()));
    assert_eq!(
        failure(run(&mut world, request(3, ABC), None)),
        (INCOMPLETE, "got 2 of 3 bytes".into(), true)
    );
    assert_eq!(world.partial.as_deref(), Some(b"ab".as_slice()));
}

#[test]
fn too_much_and_the_wrong_bytes_lose_their_partial() {
    let mut long = world(Server::Whole(b"abcd".to_vec()));
    assert_eq!(
        failure(run(&mut long, request(3, ABC), None)),
        (SIZE_MISMATCH, "got 4, expected 3".into(), false)
    );
    assert_eq!(long.partial, None);

    let mut wrong = world(Server::Whole(b"abd".to_vec()));
    assert_eq!(
        failure(run(&mut wrong, request(3, ABC), None)),
        (
            HASH_MISMATCH,
            format!("expected {ABC}, got {}", digest_of(b"abd")),
            false
        )
    );
    assert_eq!(wrong.partial, None);
    assert_eq!(wrong.media, None);
}

#[test]
fn an_empty_file_reports_no_progress() {
    let empty = "e3b0c44298fc1c149afbf4c8996fb92427ae41e4649b934ca495991b7852b855";
    let mut world = world(Server::Whole(vec![]));
    run(&mut world, request(0, empty), None).unwrap();
    assert!(world.progress.is_empty());
    assert_eq!(world.media, Some(vec![]));
}

#[test]
fn a_full_disk_is_reported_after_evicting_everything_inactive() {
    let mut world = world(Server::Unreachable);
    world.free = 10;
    let entry = |name: &str, modified| DirEntry {
        name: name.into(),
        is_file: true,
        modified: Some(modified),
    };
    world.others = vec![entry("b.mp4", 2), entry("on.mp4", 1), entry("a.mp4", 1)];
    assert_eq!(
        failure(run(&mut world, request(10_000, ABC), Some("on"))),
        (DISK_FULL, "need 15000 bytes, 2010 free".into(), false)
    );
    assert_eq!(world.evicted, ["a.mp4", "b.mp4"]);
}

#[test]
fn eviction_makes_room_for_a_download() {
    let mut world = world(Server::Whole(b"abc".to_vec()));
    world.free = 0;
    world.others = vec![DirEntry {
        name: "a.mp4".into(),
        is_file: true,
        modified: None,
    }];
    run(&mut world, request(3, ABC), None).unwrap();
    assert_eq!(world.evicted, ["a.mp4"]);
}

#[test]
fn a_file_that_cannot_be_moved_may_be_retried() {
    let mut world = world(Server::Whole(b"abc".to_vec()));
    world.media = Some(b"old".to_vec());
    world.promote_error = Some("in use".into());
    assert_eq!(
        failure(run(&mut world, request(3, ABC), Some("v1"))),
        (
            PROMOTE_FAILED,
            "could not move v1 into media/: in use".into(),
            true
        )
    );
    assert_eq!(world.media.as_deref(), Some(b"old".as_slice()));
}

#[test]
fn a_download_takes_only_what_it_waits_for() {
    let (download, _) = Download::new(request(3, ABC), None);
    assert!(matches!(download.phase, Phase::Listing));
    assert!(!download.takes(&Event::Done));
    assert!(download.takes(&Event::Entries(vec![])));
    let store = MediaStore::new();
    let (download, _) = download.step(&store, Event::Entries(vec![]));
    let (download, _) = download.step(&store, Event::Done);
    assert!(download.takes(&Event::Size(None)));
    assert!(!download.takes(&Event::Free(1)));
}

#[test]
fn room_beyond_counting_is_a_full_disk_and_evicts_nothing() {
    let mut world = world(Server::Unreachable);
    world.free = 10;
    world.others = vec![DirEntry {
        name: "a.mp4".into(),
        is_file: true,
        modified: None,
    }];
    assert_eq!(
        failure(run(&mut world, request(u64::MAX, ABC), None)),
        (
            DISK_FULL,
            "need 27670116110564327422 bytes, 10 free".into(),
            false
        )
    );
    assert!(world.evicted.is_empty());
}
