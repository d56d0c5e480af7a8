//! The loopback file server.

use signage_desktop::media_server::{
    endpoint, handle, parse_range, requested_name, requested_segment, respond_not_found, spawn, Body,
    FileMeta, MediaServer,
};
use signage_desktop::store::StorePath;

#[test]
fn open_ended_range() {
    assert_eq!(parse_range("bytes=100000-"), Some((100_000, None)));
}

#[test]
fn closed_range() {
    assert_eq!(parse_range("bytes=100-199"), Some((100, Some(199))));
}

#[test]
fn malformed_ranges_are_ignored_not_rejected() {
    assert_eq!(parse_range("llamas=1-2"), None);
    assert_eq!(parse_range("bytes=-500"), None, "suffix ranges are not supported");
    assert_eq!(parse_range("bytes=abc-"), None);
    assert_eq!(parse_range("bytes=10-5"), None, "end before start");
    assert_eq!(parse_range("bytes=0-1,4-5"), None, "multipart");
}

#[test]
fn ranges_at_the_edges() {
    assert_eq!(parse_range("  bytes=7-7 "), Some((7, Some(7))));
    assert_eq!(parse_range("bytes=+7-"), None, "only digits are numbers");
    assert_eq!(parse_range("bytes=+5-9"), None);
    assert_eq!(parse_range("bytes=5-+9"), None);
    assert_eq!(parse_range("bytes=7"), None);
    assert_eq!(parse_range("bytes=-"), None);
    assert_eq!(parse_range("bytes= 7-"), None);
    assert_eq!(
        parse_range("bytes=18446744073709551615-"),
        Some((u64::MAX, None))
    );
    assert_eq!(parse_range("bytes=18446744073709551616-"), None);
}

fn file(len: u64) -> Option<FileMeta> {
    Some(FileMeta { is_file: true, len })
}

fn range(value: &str) -> Vec<(String, String)> {
    vec![
        ("Host".into(), "x".into()),
        ("rAnGe".into(), value.into()),
    ]
}

fn field<'a>(headers: &'a [(String, String)], name: &str) -> Option<&'a str> {
    headers
        .iter()
        .find(|h| h.0 == name)
        .map(|h| h.1.as_str())
}

#[test]
fn a_plain_request_gets_the_whole_file() {
    let reply = handle(file(1_000), &vec![]);
    assert_eq!(reply.status, 200);
    assert_eq!(
        reply.body,
        Body::Slice {
            start: 0,
            length: 1_000
        }
    );
    assert_eq!(field(&reply.headers, "Content-Type"), Some("video/mp4"));
    assert_eq!(field(&reply.headers, "Accept-Ranges"), Some("bytes"));
    assert_eq!(field(&reply.headers, "Content-Range"), None);
    assert_eq!(handle(file(1_000), &range("bytes=-5")).status, 200);
    assert_eq!(handle(file(1_000), &range("bytes=+5-9")).status, 200);
}

#[test]
fn ranges_get_a_206() {
    let open = handle(file(1_000), &range("bytes=900-"));
    assert_eq!(open.status, 206);
    assert_eq!(
        open.body,
        Body::Slice {
            start: 900,
            length: 100
        }
    );
    assert_eq!(
        field(&open.headers, "Content-Range"),
        Some("bytes 900-999/1000")
    );
    let closed = handle(file(1_000), &range("bytes=0-99"));
    assert_eq!(
        closed.body,
        Body::Slice {
            start: 0,
            length: 100
        }
    );
    assert_eq!(
        field(&closed.headers, "Content-Range"),
        Some("bytes 0-99/1000")
    );
    let past = handle(file(1_000), &range("bytes=990-5000"));
    assert_eq!(
        past.body,
        Body::Slice {
            start: 990,
            length: 10
        }
    );
}

#[test]
fn a_range_behind_the_end_gets_a_416() {
    let reply = handle(file(1_000), &range("bytes=1000-"));
    assert_eq!(reply.status, 416);
    assert_eq!(reply.body, Body::Nothing);
    assert_eq!(field(&reply.headers, "Content-Range"), Some("bytes */1000"));
}

#[test]
fn what_is_no_file_is_not_found() {
    let expected = respond_not_found();
    assert_eq!(expected.status, 404);
    assert_eq!(expected.body, Body::Text("not found\n".into()));
    for meta in [
        None,
        Some(FileMeta {
            is_file: false,
            len: 9,
        }),
    ] {
        let reply = handle(meta, &vec![]);
        assert_eq!(reply.status, 404);
        assert_eq!(reply.body, expected.body);
        assert_eq!(reply.headers, expected.headers);
    }
}

#[test]
fn a_request_needs_the_token() {
    let prefix = "/9f3a/";
    assert_eq!(
        requested_segment("/9f3a/v1.mp4?v=7", prefix),
        Some("v1.mp4")
    );
    assert_eq!(requested_segment("/9f3b/v1.mp4", prefix), None);
    assert_eq!(requested_segment("/9f3a", prefix), None);
    assert_eq!(requested_name("/9f3b/v1.mp4", prefix), None);
}

#[test]
fn only_the_final_component_is_served() {
    let prefix = "/9f3a/";
    assert_eq!(
        requested_name("/9f3a/v1.mp4?v=7", prefix).as_deref(),
        Some("v1.mp4")
    );
    assert_eq!(
        requested_name("/9f3a/../../config.json", prefix).as_deref(),
        Some("config.json")
    );
    let name = |url: &str| requested_name(url, prefix);
    assert_eq!(name("/9f3a/a/b.mp4/").as_deref(), Some("b.mp4"));
    assert_eq!(name("/9f3a/a//b.mp4/./").as_deref(), Some("b.mp4"));
    assert_eq!(name("/9f3a/./"), None);
    assert_eq!(name("/9f3a/a/.."), None);
    assert_eq!(name("/9f3a/a/../"), None);
    let either = name("/9f3a/../../x\\y").unwrap();
    assert!(either == "x\\y" || either == "y");
    assert_eq!(name("/9f3a/12:30.mp4").as_deref(), Some("12:30.mp4"));
    assert_eq!(name("/9f3a/ab:c/file.mp4").as_deref(), Some("file.mp4"));
    assert_eq!(requested_name("/9f3a/..", prefix), None);
    assert_eq!(requested_name("/9f3a/", prefix), None);
    // Nothing is decoded, so this names a file that does not exist.
    assert_eq!(
        requested_name("/9f3a/..%2f..%2fx", prefix).as_deref(),
        Some("..%2f..%2fx")
    );
}

fn media(name: &str) -> StorePath {
    StorePath {
        dir: "media".into(),
        name: name.into(),
    }
}

#[test]
fn urls_are_stamped_in_milliseconds() {
    let server = MediaServer {
        base_url: "http://127.0.0.1:1/t".into(),
    };
    let url = |modified| server.url_for(&media("v1.mp4"), modified);
    assert_eq!(
        url(Some(1_722_000_123_456_789_000)).as_deref(),
        Some("http://127.0.0.1:1/t/v1.mp4?v=1722000123456")
    );
    assert_eq!(
        url(None).as_deref(),
        Some("http://127.0.0.1:1/t/v1.mp4?v=0")
    );
    assert_eq!(url(Some(-5_000_000)), url(None));
    assert_ne!(url(Some(1_000_000)), url(Some(2_000_000)));
    assert_eq!(server.url_for(&media(".."), None), None);
}

#[test]
fn an_endpoint_is_the_port_and_the_token() {
    let endpoint = endpoint(52341, "9f3a");
    assert_eq!(endpoint.server.base_url, "http://127.0.0.1:52341/9f3a");
    assert_eq!(endpoint.prefix, "/9f3a/");
}

#[test]
fn every_server_gets_a_token_of_its_own() {
    let one = spawn(80);
    let two = spawn(80);
    assert_ne!(one.prefix, two.prefix);
    assert_eq!(one.prefix.len(), 34);
    assert_eq!(
        one.server.base_url,
        format!("http://127.0.0.1:80{}", &one.prefix[..33])
    );
    assert!(one.prefix[1..33]
        .chars()
        .all(|c| c.is_ascii_digit() || ('a'..='f').contains(&c)));
    // A URL of the server leads back to its file.
    let url = one.server.url_for(&media("v1.mp4"), Some(0)).unwrap();
    let request = &url["http://127.0.0.1:80".len()..];
    assert_eq!(
        requested_name(request, &one.prefix).as_deref(),
        Some("v1.mp4")
    );
    assert_eq!(requested_name(request, &two.prefix), None);
}
