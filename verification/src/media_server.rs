//! A loopback file server for the webview.
//!
//! The media directory is served over `127.0.0.1` on an ephemeral port, streaming, with the
//! Range semantics that the download side already understands. What is here decides what a
//! request is answered with; sockets and files are somebody else's.
//!
//! A random token in the path keeps other processes on the machine out. It is not a
//! security boundary, and is not pretending to be one: it stops an accident, not an
//! attacker with the same user account.

use vstd::prelude::*;
use vstd::string::*;

use crate::ident;
use crate::ident::fresh_token;
use crate::store;
use crate::store::{PathView, StorePath};
use crate::text;
use crate::text::{
    chars_of, decimal_u128, decimal_u64, eq_ignore_case, parse_u64, split_once, strip_prefix, trim,
};

verus! {

/// Where the webview finds the media.
#[derive(Debug)]
pub struct MediaServer {
    /// Everything before the filename, e.g. `http://127.0.0.1:52341/9f3a…`.
    pub base_url: String,
}

/// A server and the beginning that the path of every request to it must have.
#[derive(Debug)]
pub struct Endpoint {
    pub server: MediaServer,
    pub prefix: String,
}

/// The base URL of a server on a port.
pub open spec fn base_url(port: u16, token: Seq<char>) -> Seq<char> {
    "http://127.0.0.1:"@ + text::decimal(port as nat) + "/"@ + token
}

/// The path under which a server with a token serves its files.
pub open spec fn path_prefix(token: Seq<char>) -> Seq<char> {
    "/"@ + token + "/"@
}

/// What stands behind a server's base URL in the URL of a file, with its stamp.
pub open spec fn url_tail(name: Seq<char>, stamp: nat) -> Seq<char> {
    "/"@ + name + "?v="@ + text::decimal(stamp)
}

/// The stamp of a file: its modification time in whole milliseconds since the epoch, or zero where
/// that is unknown or lies before.
pub open spec fn stamp_of(modified: Option<i128>) -> nat {
    match modified {
        Some(t) if t >= 0 => (t as nat) / 1_000_000,
        _ => 0,
    }
}

impl MediaServer {
    /// The URL of a file in this server, unless its name stands for no file of its own.
    pub open spec fn spec_url_for(
        self,
        file: PathView,
        modified: Option<i128>,
    ) -> Option<Seq<char>> {
        if store::is_dots(file.name) {
            None
        } else {
            Some(self.base_url@ + url_tail(file.name, stamp_of(modified)))
        }
    }

    /// The URL the webview should load, stamped with the file's modification time, which is
    /// given in nanoseconds since the epoch as far as it is known.
    ///
    /// The stamp is what makes it safe to serve the media as immutable: a re-download of
    /// the *same* video produces a different stamp, so the webview fetches the new
    /// bytes instead of replaying the ones it cached.
    pub fn url_for(&self, file: &StorePath, modified: Option<i128>) -> (url: Option<String>)
        ensures
            text::opt_text(url) == self.spec_url_for(file@, modified),
    {
        if is_dots(file.name.as_str()) {
            return None;
        }
        let stamp: u128 = match modified {
            Some(t) => {
                if t >= 0 {
                    t as u128 / 1_000_000
                } else {
                    0
                }
            },
            None => 0,
        };
        let mut url = self.base_url.clone();
        url.append("/");
        url.append(file.name.as_str());
        url.append("?v=");
        url.append(decimal_u128(stamp).as_str());
        proof {
            assert(url@ =~= self.base_url@ + url_tail(file.name@, stamp as nat));
        }
        Some(url)
    }
}

/// Whether a name stands for no file of its own.
fn is_dots(name: &str) -> (yes: bool)
    ensures
        yes == store::is_dots(name@),
{
    let chars = chars_of(name);
    let yes = chars.len() == 0 || (chars.len() == 1 && chars[0] == '.') || (chars.len() == 2
        && chars[0] == '.' && chars[1] == '.');
    proof {
        if name@.len() == 1 && name@[0] == '.' {
            assert(name@ =~= seq!['.']);
        }
        if name@.len() == 2 && name@[0] == '.' && name@[1] == '.' {
            assert(name@ =~= seq!['.', '.']);
        }
    }
    yes
}

/// The server on a port to which a token has been dealt.
pub fn endpoint(port: u16, token: &str) -> (endpoint: Endpoint)
    ensures
        endpoint.server.base_url@ == base_url(port, token@),
        endpoint.prefix@ == path_prefix(token@),
{
    let mut url = "http://127.0.0.1:".to_owned();
    url.append(decimal_u64(port as u64).as_str());
    url.append("/");
    url.append(token);
    let mut prefix = "/".to_owned();
    prefix.append(token);
    prefix.append("/");
    Endpoint { server: MediaServer { base_url: url }, prefix }
}

/// The server on a port that has been bound, under a token of its own.
pub fn spawn(port: u16) -> (endpoint: Endpoint)
    ensures
        exists|token: Seq<char>|
            {
                &&& token.len() == 32
                &&& ident::all_hex(token)
                &&& endpoint.server.base_url@ == base_url(port, token)
                &&& endpoint.prefix@ == #[trigger] path_prefix(token)
            },
{
    let token = fresh_token();
    let endpoint = endpoint(port, token.as_str());
    proof {
        assert(endpoint.prefix@ == path_prefix(token@));
    }
    endpoint
}

// ------------------------------------------------------------------- requests

/// The path of a request: its URL up to the query.
pub open spec fn path_of(url: Seq<char>) -> Seq<char> {
    url.take(text::first_index(url, '?') as int)
}

/// What a request asks for below the server's prefix, if it has the prefix.
pub open spec fn segment_of(url: Seq<char>, prefix: Seq<char>) -> Option<Seq<char>> {
    if prefix.is_prefix_of(path_of(url)) {
        Some(path_of(url).skip(prefix.len() as int))
    } else {
        None
    }
}

/// What a request asks for below the server's prefix; nothing where it lacks the prefix.
pub fn requested_segment<'a>(url: &'a str, prefix: &str) -> (segment: Option<&'a str>)
    ensures
        text::opt_str(segment) == segment_of(url@, prefix@),
{
    let path = match split_once(url, '?') {
        Some((path, query)) => path,
        None => {
            proof {
                assert(url@.take(url@.len() as int) =~= url@);
            }
            url
        },
    };
    strip_prefix(path, prefix)
}

/// Whether a path begins as a drive does on some platforms: with a letter and a colon.
pub open spec fn may_have_drive(path: Seq<char>) -> bool {
    path.len() >= 2 && path[1] == ':'
}

/// Whether a name is a file's plain name on every platform: no separator, no drive.
pub open spec fn is_plain_name(name: Seq<char>) -> bool {
    !store::is_dots(name) && !name.contains('/') && !name.contains('\\') && !may_have_drive(name)
}

/// Whether a character separates the components of a path. A slash always does; whether a
/// backslash does is up to the platform.
pub open spec fn is_separator(c: char, backslash: bool) -> bool {
    c == '/' || (backslash && c == '\\')
}

/// The index of the last separator of a path, or -1.
pub open spec fn last_separator(path: Seq<char>, backslash: bool) -> int
    decreases path.len(),
{
    if path.len() == 0 {
        -1
    } else if is_separator(path.last(), backslash) {
        path.len() - 1
    } else {
        last_separator(path.drop_last(), backslash)
    }
}

/// The final component of a path that begins neither with a drive nor with the name of a host:
/// what stands behind the last separator, or, where that is nothing or the directory itself, the
/// final component of what stands in front. There is none where the path ends with a way up.
pub open spec fn final_part(path: Seq<char>, backslash: bool) -> Option<Seq<char>>
    decreases path.len(),
{
    let at = last_separator(path, backslash);
    let part = path.skip(at + 1);
    if part.len() == 0 || part == seq!['.'] {
        if 0 <= at < path.len() {
            final_part(path.take(at), backslash)
        } else {
            None
        }
    } else if part == seq!['.', '.'] {
        None
    } else {
        Some(part)
    }
}

/// Whether some platform could take the beginning of a path for a drive or the name of a host.
pub open spec fn may_have_prefix(path: Seq<char>) -> bool {
    may_have_drive(path) || (path.len() >= 2 && is_separator(path[0], true) && is_separator(
        path[1],
        true,
    ))
}

/// What holds of the name of a path on every platform. A plain name is its own, and any other is
/// the path's final component by the separators of the platform. In any case it is a part of the
/// path and no way up, and there is no slash in it unless the path could be a verbatim one, which
/// takes a backslash and a question mark.
pub open spec fn may_name(path: Seq<char>, name: Option<Seq<char>>) -> bool {
    &&& is_plain_name(path) ==> name == Some(path)
    &&& !may_have_prefix(path) ==> name == final_part(path, false) || name == final_part(path, true)
    &&& name matches Some(name) ==> {
        &&& exists|i: int, j: int| 0 <= i <= j <= path.len() && name == #[trigger] path.subrange(i, j)
        &&& !store::is_dots(name)
        &&& !path.contains('\\') || !path.contains('?') ==> !name.contains('/')
    }
}

/// `std::path::Path::file_name`: the final component of a path, if it is a normal one, and none
/// where the path ends with a way up. Whether a backslash separates components as a slash does,
/// and whether a drive or the name of a host may stand in front, is up to the platform: the
/// contract says what holds either way, and leaves open which component it is where the path
/// might begin with one of those.
#[verifier::external_body]
fn final_component(path: &str) -> (name: Option<String>)
    ensures
        may_name(path@, text::opt_text(name)),
{
    std::path::Path::new(path).file_name().and_then(|n| n.to_str()).map(|n| n.to_owned())
}

/// The name of the file that a request asks for. Taking the final component of whatever stands
/// behind the prefix is the guard against requests that climb out of the media directory.
pub fn requested_name(url: &str, prefix: &str) -> (name: Option<String>)
    ensures
        match segment_of(url@, prefix@) {
            Some(segment) => may_name(segment, text::opt_text(name)),
            None => name is None,
        },
        text::opt_text(name) matches Some(name) ==> !name.contains('/') && !store::is_dots(name),
{
    proof {
        lemma_a_segment_has_no_query(url@, prefix@);
    }
    match requested_segment(url, prefix) {
        Some(segment) => final_component(segment),
        None => None,
    }
}

proof fn lemma_a_segment_has_no_query(url: Seq<char>, prefix: Seq<char>)
    ensures
        segment_of(url, prefix) matches Some(segment) ==> !segment.contains('?'),
{
    text::lemma_first_index_bound(url, '?');
    if let Some(segment) = segment_of(url, prefix) {
        if segment.contains('?') {
            let i = choose|i: int| 0 <= i < segment.len() && segment[i] == '?';
            assert(path_of(url)[prefix.len() + i] == '?');
            assert(url[prefix.len() + i] == '?');
        }
    }
}

proof fn lemma_last_separator(path: Seq<char>, backslash: bool)
    ensures
        -1 <= last_separator(path, backslash) < path.len(),
        last_separator(path, backslash) >= 0 ==> is_separator(
            path[last_separator(path, backslash)],
            backslash,
        ),
        forall|i: int|
            last_separator(path, backslash) < i < path.len() ==> !is_separator(
                #[trigger] path[i],
                backslash,
            ),
    decreases path.len(),
{
    if path.len() > 0 && !is_separator(path.last(), backslash) {
        let rest = path.drop_last();
        lemma_last_separator(rest, backslash);
        assert forall|i: int|
            last_separator(path, backslash) < i < path.len() implies !is_separator(
            #[trigger] path[i],
            backslash,
        ) by {
            if i < path.len() - 1 {
                assert(path[i] == rest[i]);
            }
        }
    }
}

proof fn lemma_final_part(path: Seq<char>, backslash: bool)
    ensures
        final_part(path, backslash) matches Some(name) ==> {
            &&& !store::is_dots(name)
            &&& !name.contains('/')
            &&& backslash ==> !name.contains('\\')
        },
    decreases path.len(),
{
    lemma_last_separator(path, backslash);
    let at = last_separator(path, backslash);
    let part = path.skip(at + 1);
    if part.len() == 0 || part == seq!['.'] {
        if 0 <= at < path.len() {
            lemma_final_part(path.take(at), backslash);
        }
    } else {
        assert forall|i: int| 0 <= i < part.len() implies !is_separator(
            #[trigger] part[i],
            backslash,
        ) by {
            assert(part[i] == path[at + 1 + i]);
        }
    }
}

proof fn lemma_without_backslashes(path: Seq<char>)
    requires
        !path.contains('\\'),
    ensures
        last_separator(path, true) == last_separator(path, false),
    decreases path.len(),
{
    if path.len() > 0 {
        assert(path.last() == path[path.len() - 1]);
        let rest = path.drop_last();
        assert forall|i: int| 0 <= i < rest.len() implies #[trigger] rest[i] != '\\' by {
            assert(rest[i] == path[i]);
        }
        lemma_without_backslashes(rest);
    }
}

proof fn lemma_one_final_part(path: Seq<char>)
    requires
        !path.contains('\\'),
    ensures
        final_part(path, true) == final_part(path, false),
    decreases path.len(),
{
    lemma_without_backslashes(path);
    let at = last_separator(path, true);
    if 0 <= at < path.len() {
        let rest = path.take(at);
        assert forall|i: int| 0 <= i < rest.len() implies #[trigger] rest[i] != '\\' by {
            assert(rest[i] == path[i]);
        }
        lemma_one_final_part(rest);
    }
}

/// What `bytes=N-` or `bytes=N-M` asks for, where N and M are digits alone. Anything else, suffix
/// ranges, multiple ranges, a different unit, a sign, an end before the start, asks for nothing.
pub open spec fn range_of(value: Seq<char>) -> Option<(u64, Option<u64>)> {
    let value = text::trimmed(value);
    if !"bytes="@.is_prefix_of(value) {
        None
    } else {
        match text::split_first(value.skip(6), '-') {
            Some((start, end)) => match (text::u64_text(start), text::u64_text(end)) {
                (Some(first), Some(last)) if first <= last => Some((first, Some(last))),
                (Some(first), _) if end.len() == 0 => Some((first, None)),
                _ => None,
            },
            None => None,
        }
    }
}

/// `bytes=N-` or `bytes=N-M`. Anything else returns None, which the caller turns into a plain
/// 200.
pub fn parse_range(value: &str) -> (range: Option<(u64, Option<u64>)>)
    ensures
        range == range_of(value@),
{
    proof {
        reveal_strlit("bytes=");
    }
    let spec = match strip_prefix(trim(value), "bytes=") {
        Some(spec) => spec,
        None => return None,
    };
    let (start, end) = match split_once(spec, '-') {
        Some(parts) => parts,
        None => return None,
    };
    let first: u64 = match parse_u64(start) {
        Some(first) => first,
        None => return None,
    };
    if end.is_empty() {
        return Some((first, None));
    }
    match parse_u64(end) {
        Some(last) => {
            if last < first {
                None
            } else {
                Some((first, Some(last)))
            }
        },
        None => None,
    }
}

/// A header field: its name and its value.
pub type Field = (String, String);

/// What the header fields of a message stand for.
pub open spec fn fields(headers: Seq<Field>) -> Seq<(Seq<char>, Seq<char>)> {
    headers.map_values(|h: Field| (h.0@, h.1@))
}

/// The value of the first `Range` field, whatever the case of its name.
pub open spec fn range_field(headers: Seq<(Seq<char>, Seq<char>)>) -> Option<Seq<char>>
    decreases headers.len(),
{
    if headers.len() == 0 {
        None
    } else if text::lowered(headers.first().0) == text::lowered("Range"@) {
        Some(headers.first().1)
    } else {
        range_field(headers.drop_first())
    }
}

/// The value of the first `Range` field of a request.
fn find_range(headers: &Vec<Field>) -> (value: Option<&str>)
    ensures
        text::opt_str(value) == range_field(fields(headers@)),
{
    let ghost all = fields(headers@);
    let mut i: usize = 0;
    proof {
        assert(all.skip(0) =~= all);
    }
    while i < headers.len()
        invariant
            i <= headers.len(),
            all == fields(headers@),
            range_field(all) == range_field(all.skip(i as int)),
        decreases headers.len() - i,
    {
        proof {
            assert(all.skip(i as int).first() == (headers[i as int].0@, headers[i as int].1@));
            assert(all.skip(i as int).drop_first() =~= all.skip(i + 1));
        }
        if eq_ignore_case(headers[i].0.as_str(), "Range") {
            return Some(headers[i].1.as_str());
        }
        i += 1;
    }
    None
}

// -------------------------------------------------------------------- answers

/// What is on disk under the name that was asked for.
#[derive(Debug)]
pub struct FileMeta {
    pub is_file: bool,
    pub len: u64,
}

/// The body of an answer: a text, nothing, or a part of the file.
#[derive(Debug, PartialEq, Eq)]
pub enum Body {
    Text(String),
    Nothing,
    Slice { start: u64, length: u64 },
}

/// An answer to a request.
#[derive(Debug)]
pub struct Reply {
    pub status: u16,
    pub headers: Vec<Field>,
    pub body: Body,
}

/// What a [`Body`] stands for.
#[verifier::ext_equal]
pub enum BodyView {
    Text(Seq<char>),
    Nothing,
    Slice { start: u64, length: u64 },
}

/// What a [`Reply`] stands for.
#[verifier::ext_equal]
pub struct ReplyView {
    pub status: u16,
    pub headers: Seq<(Seq<char>, Seq<char>)>,
    pub body: BodyView,
}

impl View for Body {
    type V = BodyView;

    open spec fn view(&self) -> BodyView {
        match *self {
            Body::Text(text) => BodyView::Text(text@),
            Body::Nothing => BodyView::Nothing,
            Body::Slice { start, length } => BodyView::Slice { start, length },
        }
    }
}

impl View for Reply {
    type V = ReplyView;

    open spec fn view(&self) -> ReplyView {
        ReplyView { status: self.status, headers: fields(self.headers@), body: self.body@ }
    }
}

/// The answer where there is nothing to serve.
pub open spec fn not_found() -> ReplyView {
    ReplyView {
        status: 404,
        headers: seq![("Content-Type"@, "text/plain"@)],
        body: BodyView::Text("not found\n"@),
    }
}

/// The header fields that every answer about a file has.
pub open spec fn media_headers() -> Seq<(Seq<char>, Seq<char>)> {
    seq![
        ("Content-Type"@, "video/mp4"@),
        ("Accept-Ranges"@, "bytes"@),
        ("Cache-Control"@, "private, max-age=31536000, immutable"@),
    ]
}

/// The answer about a file of `size` bytes: all of it, the part that a range asks for as far as
/// the file goes, or word that the range lies behind its end.
pub open spec fn file_reply(size: u64, range: Option<(u64, Option<u64>)>) -> ReplyView {
    match range {
        None => ReplyView {
            status: 200,
            headers: media_headers(),
            body: BodyView::Slice { start: 0, length: size },
        },
        Some((start, end)) => if start >= size {
            ReplyView {
                status: 416,
                headers: media_headers().push(
                    ("Content-Range"@, "bytes */"@ + text::decimal(size as nat)),
                ),
                body: BodyView::Nothing,
            }
        } else {
            let last = last_byte(size, end);
            ReplyView {
                status: 206,
                headers: media_headers().push(
                    (
                        "Content-Range"@,
                        "bytes "@ + text::decimal(start as nat) + "-"@ + text::decimal(last as nat)
                            + "/"@ + text::decimal(size as nat),
                    ),
                ),
                body: BodyView::Slice { start, length: (last - start + 1) as u64 },
            }
        },
    }
}

/// The last byte that a range reaches in a file of `size` bytes.
pub open spec fn last_byte(size: u64, end: Option<u64>) -> int {
    match end {
        Some(end) => if end < size {
            end as int
        } else {
            size - 1
        },
        None => size - 1,
    }
}

/// The answer to a request for what `meta` describes, with these header fields.
pub open spec fn reply(
    meta: Option<FileMeta>,
    request: Seq<(Seq<char>, Seq<char>)>,
) -> ReplyView {
    match meta {
        Some(meta) => if meta.is_file {
            file_reply(
                meta.len,
                match range_field(request) {
                    Some(value) => range_of(value),
                    None => None,
                },
            )
        } else {
            not_found()
        },
        None => not_found(),
    }
}

/// A header field.
fn header(name: &str, value: &str) -> (field: Field)
    ensures
        (field.0@, field.1@) == (name@, value@),
{
    (name.to_owned(), value.to_owned())
}

/// Refuses a request without saying why.
pub fn respond_not_found() -> (reply: Reply)
    ensures
        reply@ == not_found(),
{
    let mut headers: Vec<Field> = Vec::new();
    headers.push(header("Content-Type", "text/plain"));
    let reply = Reply { status: 404, headers, body: Body::Text("not found\n".to_owned()) };
    assert(reply@.headers =~= not_found().headers);
    reply
}

/// Answers a request for the file that `meta` describes; nothing is known of a file that is not
/// there.
///
/// A malformed Range is ignored rather than rejected, so a client that sends nonsense still gets
/// its video. The media is cacheable on purpose: otherwise the media element would fetch the
/// whole file again on every loop. Freshness comes from the stamp in the URL.
pub fn handle(meta: Option<FileMeta>, request: &Vec<Field>) -> (answer: Reply)
    ensures
        answer@ == reply(meta, fields(request@)),
{
    let size: u64 = match meta {
        Some(meta) => {
            if !meta.is_file {
                return respond_not_found();
            }
            meta.len
        },
        None => return respond_not_found(),
    };
    let range = match find_range(request) {
        Some(value) => parse_range(value),
        None => None,
    };
    let mut headers: Vec<Field> = Vec::new();
    headers.push(header("Content-Type", "video/mp4"));
    headers.push(header("Accept-Ranges", "bytes"));
    headers.push(header("Cache-Control", "private, max-age=31536000, immutable"));
    proof {
        assert(fields(headers@) =~= media_headers());
    }
    let ghost base = headers@;
    match range {
        None => Reply { status: 200, headers, body: Body::Slice { start: 0, length: size } },
        Some((start, end)) => {
            if start >= size {
                let mut value = "bytes */".to_owned();
                value.append(decimal_u64(size).as_str());
                headers.push(header("Content-Range", value.as_str()));
                proof {
                    assert(fields(headers@) =~= fields(base).push(("Content-Range"@, value@)));
                }
                Reply { status: 416, headers, body: Body::Nothing }
            } else {
                let last: u64 = match end {
                    Some(end) => {
                        if end < size {
                            end
                        } else {
                            size - 1
                        }
                    },
                    None => size - 1,
                };
                let mut value = "bytes ".to_owned();
                value.append(decimal_u64(start).as_str());
                value.append("-");
                value.append(decimal_u64(last).as_str());
                value.append("/");
                value.append(decimal_u64(size).as_str());
                headers.push(header("Content-Range", value.as_str()));
                proof {
                    assert(fields(headers@) =~= fields(base).push(("Content-Range"@, value@)));
                    lemma_range_is_not_reversed(range_field(fields(request@)));
                }
                Reply {
                    status: 206,
                    headers,
                    body: Body::Slice { start, length: last - start + 1 },
                }
            }
        },
    }
}

proof fn lemma_range_is_not_reversed(value: Option<Seq<char>>)
    ensures
        value matches Some(value) ==> range_of(value) matches Some((start, Some(end))) ==> start <= end,
{
}

// ----------------------------------------------------------------------- laws

/// What is served of a file lies in the file.
pub proof fn law_what_is_served_lies_in_the_file(size: u64, value: Option<Seq<char>>)
    ensures
        file_reply(
            size,
            match value {
                Some(value) => range_of(value),
                None => None,
            },
        ).body matches BodyView::Slice { start, length } ==> start + length <= size,
{
    lemma_range_is_not_reversed(value);
}

/// A request without a Range field, or with one that asks for nothing sensible, gets the whole
/// file.
pub proof fn law_malformed_ranges_are_ignored_not_rejected(
    meta: FileMeta,
    request: Seq<(Seq<char>, Seq<char>)>,
)
    requires
        meta.is_file,
        range_field(request) matches Some(value) ==> range_of(value) is None,
    ensures
        reply(Some(meta), request) == (ReplyView {
            status: 200,
            headers: media_headers(),
            body: BodyView::Slice { start: 0, length: meta.len },
        }),
{
}

/// The text of an open-ended range asks for what it says.
pub proof fn law_an_open_ended_range_reads_back(start: u64)
    ensures
        range_of("bytes="@ + text::decimal(start as nat) + "-"@) == Some((start, None::<u64>)),
{
    reveal_strlit("bytes=");
    reveal_strlit("-");
    let digits = text::decimal(start as nat);
    let value = "bytes="@ + digits + "-"@;
    text::law_a_number_reads_back(start);
    text::lemma_decimal(start as nat);
    text::lemma_trimmed_as_is(value);
    assert("bytes="@ =~= value.subrange(0, 6));
    let rest = value.skip(6);
    assert(rest =~= digits + seq!['-'] + Seq::<char>::empty());
    assert(!digits.contains('-')) by {
        if digits.contains('-') {
            let i = choose|i: int| 0 <= i < digits.len() && digits[i] == '-';
            assert(text::is_digit(digits[i]));
        }
    }
    text::lemma_split_first_at(digits, Seq::<char>::empty(), '-');
    assert(text::u64_text(Seq::<char>::empty()) is None);
}

/// The text of a closed range asks for what it says.
pub proof fn law_a_closed_range_reads_back(start: u64, end: u64)
    requires
        start <= end,
    ensures
        range_of("bytes="@ + text::decimal(start as nat) + "-"@ + text::decimal(end as nat)) == Some(
            (start, Some(end)),
        ),
{
    reveal_strlit("bytes=");
    reveal_strlit("-");
    let a = text::decimal(start as nat);
    let b = text::decimal(end as nat);
    let value = "bytes="@ + a + "-"@ + b;
    text::law_a_number_reads_back(start);
    text::law_a_number_reads_back(end);
    text::lemma_decimal(start as nat);
    text::lemma_decimal(end as nat);
    assert(value.last() == b[b.len() - 1]);
    assert(text::is_digit(value.last()));
    text::lemma_trimmed_as_is(value);
    assert("bytes="@ =~= value.subrange(0, 6));
    let rest = value.skip(6);
    assert(rest =~= a + seq!['-'] + b);
    assert(!a.contains('-')) by {
        if a.contains('-') {
            let i = choose|i: int| 0 <= i < a.len() && a[i] == '-';
            assert(text::is_digit(a[i]));
        }
    }
    text::lemma_split_first_at(a, b, '-');
}

/// The Range contract: an open-ended range gets the rest of the file as a 206, a closed one gets
/// its part as far as the file goes, and one that starts behind the end gets a 416 that says how
/// long the file is.
pub proof fn law_the_range_contract(size: u64, start: u64, end: u64)
    requires
        start <= end,
    ensures
        ({
            let open = file_reply(
                size,
                range_of("bytes="@ + text::decimal(start as nat) + "-"@),
            );
            let closed = file_reply(
                size,
                range_of(
                    "bytes="@ + text::decimal(start as nat) + "-"@ + text::decimal(end as nat),
                ),
            );
            &&& start < size ==> {
                &&& open.status == 206
                &&& open.body == (BodyView::Slice { start, length: (size - start) as u64 })
                &&& open.headers.last() == (
                    "Content-Range"@,
                    "bytes "@ + text::decimal(start as nat) + "-"@ + text::decimal((size - 1) as nat)
                        + "/"@ + text::decimal(size as nat),
                )
                &&& closed.status == 206
                &&& end < size ==> closed.body == (BodyView::Slice {
                    start,
                    length: (end - start + 1) as u64,
                })
                &&& end >= size ==> closed == open
            }
            &&& start >= size ==> {
                &&& open.status == 416
                &&& open.body == BodyView::Nothing
                &&& open.headers.last() == (
                    "Content-Range"@,
                    "bytes */"@ + text::decimal(size as nat),
                )
                &&& closed == open
            }
        }),
{
    law_an_open_ended_range_reads_back(start);
    law_a_closed_range_reads_back(start, end);
}

/// What an open-ended range brings completes what a client had up to there.
pub proof fn law_a_resumed_transfer_completes_the_file(file: Seq<u8>, have: u64)
    requires
        have < file.len() <= u64::MAX,
    ensures
        file_reply(
            file.len() as u64,
            range_of("bytes="@ + text::decimal(have as nat) + "-"@),
        ).body matches BodyView::Slice { start, length } && file.take(have as int) + file.subrange(
            start as int,
            start + length,
        ) == file,
{
    law_an_open_ended_range_reads_back(have);
    assert(file.take(have as int) + file.subrange(have as int, file.len() as int) =~= file);
}

/// A URL leads back to its file: what stands behind the server's address in it, sent as a
/// request, asks for that file.
pub proof fn law_a_url_leads_back_to_its_file(token: Seq<char>, name: Seq<char>, stamp: nat)
    requires
        !token.contains('?'),
        !name.contains('?'),
    ensures
        segment_of("/"@ + token + url_tail(name, stamp), path_prefix(token)) == Some(name),
        is_plain_name(name) ==> forall|found: Option<Seq<char>>|
            may_name(name, found) ==> found == Some(name),
{
    reveal_strlit("/");
    reveal_strlit("?v=");
    let url = "/"@ + token + url_tail(name, stamp);
    let path = "/"@ + token + "/"@ + name;
    let behind = seq!['v', '='] + text::decimal(stamp);
    assert(url =~= path + seq!['?'] + behind);
    assert(!path.contains('?')) by {
        if path.contains('?') {
            let i = choose|i: int| 0 <= i < path.len() && path[i] == '?';
            if 1 <= i < 1 + token.len() {
                assert(token[i - 1] == '?');
            } else if i >= 2 + token.len() {
                assert(name[i - 2 - token.len()] == '?');
            }
        }
    }
    text::lemma_split_first_at(path, behind, '?');
    assert(path_of(url) =~= path);
    let prefix = path_prefix(token);
    assert(prefix =~= path.subrange(0, prefix.len() as int));
    assert(path.skip(prefix.len() as int) =~= name);
}

/// A file that has changed is loaded anew: another stamp makes another URL.
pub proof fn law_another_stamp_makes_another_url(base: Seq<char>, name: Seq<char>, a: nat, b: nat)
    requires
        base + url_tail(name, a) == base + url_tail(name, b),
    ensures
        a == b,
{
    let front = base + ("/"@ + name + "?v="@);
    assert(base + url_tail(name, a) =~= front + text::decimal(a));
    assert(base + url_tail(name, b) =~= front + text::decimal(b));
    assert((front + text::decimal(a)).skip(front.len() as int) =~= text::decimal(a));
    assert((front + text::decimal(b)).skip(front.len() as int) =~= text::decimal(b));
    text::law_different_numbers_are_written_differently(a, b);
}

/// A request under another token is refused, whatever it asks for.
pub proof fn law_a_wrong_token_is_refused(
    token: Seq<char>,
    wrong: Seq<char>,
    rest: Seq<char>,
)
    requires
        !token.contains('/'),
        !wrong.contains('/'),
        wrong != token,
    ensures
        segment_of(path_prefix(wrong) + rest, path_prefix(token)) is None,
{
    reveal_strlit("/");
    let url = path_prefix(wrong) + rest;
    let prefix = path_prefix(token);
    let path = path_of(url);
    text::lemma_first_index_bound(url, '?');
    if prefix.is_prefix_of(path) {
        assert forall|i: int| 0 <= i < prefix.len() implies url[i] == prefix[i] by {
            assert(path.subrange(0, prefix.len() as int)[i] == prefix[i]);
        }
        let shorter = if token.len() < wrong.len() {
            token.len() as int
        } else {
            wrong.len() as int
        };
        if token.len() < wrong.len() {
            assert(wrong[shorter] == url[shorter + 1]);
            assert(prefix[shorter + 1] == '/');
        } else if wrong.len() < token.len() {
            assert(url[shorter + 1] == '/');
            assert(prefix[shorter + 1] == token[shorter]);
        } else {
            assert forall|i: int| 0 <= i < token.len() implies wrong[i] == token[i] by {
                assert(url[i + 1] == wrong[i]);
                assert(prefix[i + 1] == token[i]);
            }
            assert(wrong =~= token);
        }
    }
}

/// What cannot be served is not found: a request without the prefix or without a name, which comes
/// without a file, one for a file that is not there, and one for what is no file.
pub proof fn law_what_cannot_be_served_is_not_found(
    meta: FileMeta,
    request: Seq<(Seq<char>, Seq<char>)>,
)
    requires
        !meta.is_file,
    ensures
        reply(None, request) == not_found(),
        reply(Some(meta), request) == not_found(),
        not_found().status == 404,
{
}

/// A request cannot climb out of the media directory: whatever stands behind the prefix, the name
/// that is served from the directory is neither a way up nor a way down. Where a backslash
/// separates components as a slash does, there is none of those in it either.
pub proof fn law_a_request_cannot_climb_out(url: Seq<char>, prefix: Seq<char>, name: Seq<char>)
    requires
        segment_of(url, prefix) is Some,
        may_name(segment_of(url, prefix)->0, Some(name)),
    ensures
        !name.contains('/'),
        !store::is_dots(name),
        name.len() > 0,
        final_part(segment_of(url, prefix)->0, true) == Some(name) ==> !name.contains('\\'),
{
    lemma_a_segment_has_no_query(url, prefix);
    lemma_final_part(segment_of(url, prefix)->0, true);
}

/// A request is served by its final component: where only slashes can separate components, on
/// every platform that is what stands behind the last of them, ways around in the directory left
/// aside, and nothing where the request ends with a way up.
pub proof fn law_a_request_is_served_by_its_final_component(
    segment: Seq<char>,
    name: Option<Seq<char>>,
)
    requires
        may_name(segment, name),
        !may_have_prefix(segment),
        !segment.contains('\\'),
    ensures
        name == final_part(segment, false),
{
    lemma_one_final_part(segment);
}

/// Whether header fields hold one of this name with this value, and no other of this name.
pub open spec fn says(
    headers: Seq<(Seq<char>, Seq<char>)>,
    name: Seq<char>,
    value: Seq<char>,
) -> bool {
    &&& headers.contains((name, value))
    &&& forall|i: int| 0 <= i < headers.len() && (#[trigger] headers[i]).0 == name ==> headers[i].1 == value
}

proof fn lemma_header_names()
    ensures
        "Content-Range"@ != "Content-Type"@,
        "Content-Range"@ != "Accept-Ranges"@,
        "Content-Range"@ != "Cache-Control"@,
        "Content-Type"@ != "Accept-Ranges"@,
        "Content-Type"@ != "Cache-Control"@,
        "Accept-Ranges"@ != "Cache-Control"@,
{
    reveal_strlit("Content-Range");
    reveal_strlit("Content-Type");
    reveal_strlit("Accept-Ranges");
    reveal_strlit("Cache-Control");
    assert("Content-Range"@.len() == 13 && "Content-Type"@.len() == 12);
    assert("Accept-Ranges"@.len() == 13 && "Cache-Control"@.len() == 13);
    assert("Content-Range"@[1] == 'o' && "Accept-Ranges"@[1] == 'c' && "Cache-Control"@[1] == 'a');
}

/// A partial answer names what it holds: the Content-Range of a 206 is the first byte of its body,
/// the last byte of its body and the size of the file, whatever range was asked for. The body is
/// never empty, begins where the range begins and ends where the range ends or the file does,
/// whichever comes first.
pub proof fn law_a_partial_answer_names_what_it_holds(
    meta: FileMeta,
    request: Seq<(Seq<char>, Seq<char>)>,
)
    requires
        reply(Some(meta), request).status == 206,
    ensures
        ({
            let answer = reply(Some(meta), request);
            &&& meta.is_file
            &&& answer.body matches BodyView::Slice { start, length }
            &&& 0 < length
            &&& start + length <= meta.len
            &&& says(
                answer.headers,
                "Content-Range"@,
                "bytes "@ + text::decimal(start as nat) + "-"@ + text::decimal(
                    (start + length - 1) as nat,
                ) + "/"@ + text::decimal(meta.len as nat),
            )
            &&& range_field(request) is Some
            &&& range_of(range_field(request)->0) matches Some((first, last))
            &&& start == first
            &&& last is None || last->0 >= meta.len ==> start + length == meta.len
            &&& last is Some && last->0 < meta.len ==> start + length == last->0 + 1
        }),
{
    lemma_header_names();
    lemma_range_is_not_reversed(range_field(request));
    let headers = reply(Some(meta), request).headers;
    assert(headers.contains(headers[3]));
}

/// Which answer a request for a file gets, and what else it says: all of the file where no sensible
/// range is asked for, nothing of it where the range begins behind its end, and otherwise a part.
/// Every answer about a file says that it is a video, that ranges are understood, and that it may
/// be kept.
pub proof fn law_a_file_is_answered_by_its_range(
    meta: FileMeta,
    request: Seq<(Seq<char>, Seq<char>)>,
)
    requires
        meta.is_file,
    ensures
        ({
            let answer = reply(Some(meta), request);
            let range = if range_field(request) is Some {
                range_of(range_field(request)->0)
            } else {
                None
            };
            &&& says(answer.headers, "Content-Type"@, "video/mp4"@)
            &&& says(answer.headers, "Accept-Ranges"@, "bytes"@)
            &&& says(answer.headers, "Cache-Control"@, "private, max-age=31536000, immutable"@)
            &&& range is None ==> {
                &&& answer.status == 200
                &&& answer.body == (BodyView::Slice { start: 0, length: meta.len })
                &&& forall|i: int|
                    0 <= i < answer.headers.len() ==> (#[trigger] answer.headers[i]).0
                        != "Content-Range"@
            }
            &&& range matches Some((first, _)) ==> (first < meta.len ==> answer.status == 206)
            &&& range matches Some((first, _)) ==> (first >= meta.len ==> {
                &&& answer.status == 416
                &&& answer.body == BodyView::Nothing
                &&& says(
                    answer.headers,
                    "Content-Range"@,
                    "bytes */"@ + text::decimal(meta.len as nat),
                )
            })
        }),
{
    lemma_header_names();
    let headers = reply(Some(meta), request).headers;
    assert(headers.contains(headers[0]));
    assert(headers.contains(headers[1]));
    assert(headers.contains(headers[2]));
    if headers.len() > 3 {
        assert(headers.contains(headers[3]));
    }
}

/// What is not found is answered in words.
pub proof fn law_not_found_is_said_in_words(request: Seq<(Seq<char>, Seq<char>)>)
    ensures
        ({
            let answer = reply(None, request);
            &&& answer.status == 404
            &&& answer.body == BodyView::Text("not found\n"@)
            &&& says(answer.headers, "Content-Type"@, "text/plain"@)
        }),
{
    let headers = reply(None, request).headers;
    assert(headers.contains(headers[0]));
}

/// The range that counts is the value of the first field named `Range`, in whatever case.
pub proof fn law_the_first_range_counts(headers: Seq<(Seq<char>, Seq<char>)>, k: int)
    requires
        0 <= k < headers.len(),
        text::lowered(headers[k].0) == "range"@,
        forall|i: int| 0 <= i < k ==> text::lowered((#[trigger] headers[i]).0) != "range"@,
    ensures
        range_field(headers) == Some(headers[k].1),
    decreases headers.len(),
{
    reveal_strlit("Range");
    reveal_strlit("range");
    assert(text::lowered("Range"@) =~= "range"@);
    if k > 0 {
        let rest = headers.drop_first();
        assert(headers.first() == headers[0]);
        assert forall|i: int| 0 <= i < k - 1 implies text::lowered((#[trigger] rest[i]).0)
            != "range"@ by {
            assert(rest[i] == headers[i + 1]);
        }
        assert(rest[k - 1] == headers[k]);
        law_the_first_range_counts(rest, k - 1);
    }
}

/// Without a field named `Range`, no range counts.
pub proof fn law_without_a_range_none_counts(headers: Seq<(Seq<char>, Seq<char>)>)
    requires
        forall|i: int| 0 <= i < headers.len() ==> text::lowered((#[trigger] headers[i]).0) != "range"@,
    ensures
        range_field(headers) is None,
    decreases headers.len(),
{
    reveal_strlit("Range");
    reveal_strlit("range");
    assert(text::lowered("Range"@) =~= "range"@);
    if headers.len() > 0 {
        let rest = headers.drop_first();
        assert(headers.first() == headers[0]);
        assert forall|i: int| 0 <= i < rest.len() implies text::lowered((#[trigger] rest[i]).0)
            != "range"@ by {
            assert(rest[i] == headers[i + 1]);
        }
        law_without_a_range_none_counts(rest);
    }
}

/// A range is what it says: where a value asks for something, it is, but for white space around it,
/// the unit, digits that spell the first byte, a dash, and nothing or digits that spell the last
/// byte, which does not lie before the first.
pub proof fn law_a_range_is_what_it_says(value: Seq<char>)
    requires
        range_of(value) is Some,
    ensures
        ({
            let (first, last) = range_of(value)->0;
            exists|a: Seq<char>, b: Seq<char>|
                {
                    &&& text::trimmed(value) == #[trigger] ("bytes="@ + a + "-"@ + b)
                    &&& text::u64_text(a) == Some(first)
                    &&& last is None <==> b.len() == 0
                    &&& last is Some ==> text::u64_text(b) == last && first <= last->0
                }
        }),
{
    reveal_strlit("bytes=");
    reveal_strlit("-");
    let t = text::trimmed(value);
    let rest = t.skip(6);
    let (a, b) = text::split_first(rest, '-')->0;
    text::law_a_split_text_is_its_parts(rest, '-');
    assert(t =~= "bytes="@ + rest) by {
        assert(t.subrange(0, 6) =~= "bytes="@);
    }
    assert("bytes="@ + rest =~= "bytes="@ + a + "-"@ + b);
    assert(t == "bytes="@ + a + "-"@ + b);
}

/// A URL is the server's address, the file's name and its stamp: the modification time in whole
/// milliseconds, or zero where that is unknown or lies before the epoch.
pub proof fn law_a_url_is_address_name_and_stamp(
    server: MediaServer,
    file: PathView,
    modified: Option<i128>,
)
    ensures
        store::is_dots(file.name) ==> server.spec_url_for(file, modified) is None,
        !store::is_dots(file.name) ==> exists|millis: nat|
            {
                &&& server.spec_url_for(file, modified) == Some(
                    server.base_url@ + "/"@ + file.name + "?v="@ + #[trigger] text::decimal(millis),
                )
                &&& modified is Some && modified->0 >= 0 ==> millis * 1_000_000 <= modified->0 < (
                millis + 1) * 1_000_000
                &&& modified is None || modified->0 < 0 ==> millis == 0
            },
{
    let millis = stamp_of(modified);
    let url = server.base_url@ + "/"@ + file.name + "?v="@ + text::decimal(millis);
    assert(server.base_url@ + url_tail(file.name, millis) =~= url);
    if !store::is_dots(file.name) {
        assert(server.spec_url_for(file, modified) == Some(url));
    }
}

/// A server is reached on its port of this machine under its token, and serves below the token.
pub proof fn law_a_server_is_reached_under_its_token(port: u16, token: Seq<char>, rest: Seq<char>)
    requires
        !token.contains('?'),
        !rest.contains('?'),
    ensures
        base_url(port, token) == "http://127.0.0.1:"@ + text::decimal(port as nat) + "/"@ + token,
        segment_of("/"@ + token + "/"@ + rest, path_prefix(token)) == Some(rest),
{
    reveal_strlit("/");
    let url = "/"@ + token + "/"@ + rest;
    text::lemma_first_index_bound(url, '?');
    let at = text::first_index(url, '?') as int;
    if at < url.len() {
        text::lemma_found_at(url, '?');
        if 1 <= at < 1 + token.len() {
            assert(token[at - 1] == '?');
        } else if at >= 2 + token.len() {
            assert(rest[at - 2 - token.len()] == '?');
        }
    }
    assert(path_of(url) =~= url);
    let prefix = path_prefix(token);
    assert(prefix =~= url.subrange(0, prefix.len() as int));
    assert(url.skip(prefix.len() as int) =~= rest);
}

/// What a request asks for is what stands between the prefix and the query: put together, they
/// are the request.
pub proof fn law_a_request_is_prefix_segment_and_query(url: Seq<char>, prefix: Seq<char>)
    ensures
        ({
            let query = url.skip(text::first_index(url, '?') as int);
            &&& segment_of(url, prefix) matches Some(segment) ==> {
                &&& url == prefix + segment + query
                &&& !segment.contains('?')
                &&& !prefix.contains('?')
            }
            &&& query.len() > 0 ==> query[0] == '?'
        }),
{
    text::lemma_first_index_bound(url, '?');
    lemma_a_segment_has_no_query(url, prefix);
    let at = text::first_index(url, '?') as int;
    if at < url.len() {
        text::lemma_found_at(url, '?');
    }
    if let Some(segment) = segment_of(url, prefix) {
        let path = path_of(url);
        assert(path =~= prefix + segment) by {
            assert(path.subrange(0, prefix.len() as int) =~= prefix);
        }
        assert(url =~= path + url.skip(at));
        if prefix.contains('?') {
            let i = choose|i: int| 0 <= i < prefix.len() && prefix[i] == '?';
            assert(path[i] == '?');
            assert(url[i] == '?');
        }
    }
}

/// Every value that has the form of a range asks for it: the unit, digits, a dash, and nothing or
/// digits that spell no smaller number, with white space around it or not.
pub proof fn law_every_range_is_understood(value: Seq<char>, a: Seq<char>, b: Seq<char>)
    requires
        text::trimmed(value) == "bytes="@ + a + "-"@ + b,
        text::u64_text(a) is Some,
    ensures
        b.len() == 0 ==> range_of(value) == Some((text::u64_text(a)->0, None::<u64>)),
        text::u64_text(b) is Some && text::u64_text(a)->0 <= text::u64_text(b)->0 ==> range_of(value)
            == Some((text::u64_text(a)->0, text::u64_text(b))),
        text::u64_text(b) is Some && text::u64_text(a)->0 > text::u64_text(b)->0 ==> range_of(
            value,
        ) is None,
        b.len() > 0 && text::u64_text(b) is None ==> range_of(value) is None,
{
    reveal_strlit("bytes=");
    reveal_strlit("-");
    let t = text::trimmed(value);
    assert("bytes="@ =~= t.subrange(0, 6));
    assert(t.skip(6) =~= a + seq!['-'] + b);
    text::law_only_digits_spell_a_number(a);
    assert(!a.contains('-')) by {
        if a.contains('-') {
            let i = choose|i: int| 0 <= i < a.len() && a[i] == '-';
            assert('0' <= a[i]);
        }
    }
    text::lemma_split_first_at(a, b, '-');
}

/// An answer and the fields of a header are what they say.
pub proof fn law_an_answer_is_what_it_says(reply: Reply, headers: Seq<Field>, i: int)
    ensures
        reply@.status == reply.status,
        reply@.headers == fields(reply.headers@),
        reply@.body == reply.body@,
        reply.body matches Body::Text(text) ==> reply.body@ == BodyView::Text(text@),
        reply.body is Nothing ==> reply.body@ is Nothing,
        reply.body matches Body::Slice { start, length } ==> reply.body@ == (BodyView::Slice {
            start,
            length,
        }),
        fields(headers).len() == headers.len(),
        0 <= i < headers.len() ==> fields(headers)[i] == (headers[i].0@, headers[i].1@),
{
}

/// A name without slashes, backslashes and colons asks for the file of that name, unless it is no
/// name at all or leads to a directory.
pub proof fn law_a_plain_name_asks_for_its_file(name: Seq<char>, found: Option<Seq<char>>)
    requires
        name.len() > 0,
        name != seq!['.'],
        name != seq!['.', '.'],
        !name.contains('/'),
        !name.contains('\\'),
        !name.contains(':'),
        may_name(name, found),
    ensures
        found == Some(name),
{
    if name.len() >= 2 && name[1] == ':' {
        assert(name.contains(':'));
    }
}

/// Of what leads through a directory, the last name counts; a way up asks for nothing.
pub proof fn law_the_last_name_counts(dir: Seq<char>, name: Seq<char>, found: Option<Seq<char>>)
    requires
        dir.len() > 0,
        dir[0] != '/',
        !(dir + seq!['/'] + name).contains('\\'),
        !(dir + seq!['/'] + name).contains(':'),
        name.len() > 0,
        name != seq!['.'],
        !name.contains('/'),
        may_name(dir + seq!['/'] + name, found),
    ensures
        name != seq!['.', '.'] ==> found == Some(name),
        name == seq!['.', '.'] ==> found is None,
{
    let path = dir + seq!['/'] + name;
    if path[1] == ':' {
        assert(path.contains(':'));
    }
    if path[0] == '\\' {
        assert(path.contains('\\'));
    }
    lemma_one_final_part(path);
    lemma_last_separator(path, false);
    let at = last_separator(path, false);
    assert(path[dir.len() as int] == '/');
    if at > dir.len() {
        assert(name[at - dir.len() - 1] == '/');
        assert(name.contains('/'));
    }
    assert(path.skip(at + 1) =~= name);
}

} // verus!
