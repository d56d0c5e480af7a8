//! Fetching a campaign video and proving it arrived intact.
//!
//! The parts that matter and are easy to get subtly wrong:
//!
//! - **A digest cannot be resumed.** On picking up a partial file, the bytes already on
//!   disk are re-read through the hasher before the transfer continues, or the check would
//!   fail every time on a resumed download.
//! - **A `200` in reply to a `Range` request** means the server ignored it. Reset the
//!   digest and start from zero; never splice.
//! - **Truncate at the resume point** before appending, discarding anything past what the
//!   digest actually covered.
//! - A hash mismatch **deletes** the partial: the bytes are wrong, so it is poison to
//!   resume onto. An incomplete transfer **keeps** it; that is the whole point.
//!
//! The steps of a download are decided here; whoever runs it reads, writes and asks the server.

use vstd::prelude::*;
use vstd::string::*;

use crate::digest;
use crate::digest::{absorb, finish, fresh_hasher};
use crate::text;
use crate::text::{decimal_u128, decimal_u64, eq_ignore_case, hex};

verus! {

pub const HASH_MISMATCH: &'static str = "HASH_MISMATCH";

pub const SIZE_MISMATCH: &'static str = "SIZE_MISMATCH";

pub const DISK_FULL: &'static str = "DISK_FULL";

pub const HTTP_ERROR: &'static str = "HTTP_ERROR";

pub const NETWORK_ERROR: &'static str = "NETWORK_ERROR";

pub const INCOMPLETE: &'static str = "INCOMPLETE";

pub const RANGE_REJECTED: &'static str = "RANGE_REJECTED";

pub const PROMOTE_FAILED: &'static str = "PROMOTE_FAILED";

/// How much of a partial is read at a time.
pub const BUFFER_BYTES: usize = 65_536;

/// What to fetch, and how to know that it arrived.
#[derive(Debug)]
pub struct Request {
    pub video_id: String,
    pub url: String,
    pub sha256: String,
    pub size_bytes: u64,
}

/// What a [`Request`] stands for.
#[verifier::ext_equal]
pub struct RequestView {
    pub video_id: Seq<char>,
    pub url: Seq<char>,
    pub sha256: Seq<char>,
    pub size_bytes: u64,
}

impl View for Request {
    type V = RequestView;

    open spec fn view(&self) -> RequestView {
        RequestView {
            video_id: self.video_id@,
            url: self.url@,
            sha256: self.sha256@,
            size_bytes: self.size_bytes,
        }
    }
}

impl Clone for Request {
    fn clone(&self) -> (copy: Self)
        ensures
            copy == *self,
    {
        Request {
            video_id: self.video_id.clone(),
            url: self.url.clone(),
            sha256: self.sha256.clone(),
            size_bytes: self.size_bytes,
        }
    }
}

/// Why a download ended without a video.
#[derive(Debug)]
pub struct Failure {
    pub code: &'static str,
    pub detail: String,
    /// Whether the partial file is still worth resuming onto.
    pub resumable: bool,
}

/// What a [`Failure`] stands for.
#[verifier::ext_equal]
pub struct FailureView {
    pub code: Seq<char>,
    pub detail: Seq<char>,
    pub resumable: bool,
}

impl View for Failure {
    type V = FailureView;

    open spec fn view(&self) -> FailureView {
        FailureView { code: self.code@, detail: self.detail@, resumable: self.resumable }
    }
}

impl Failure {
    pub fn new(code: &'static str, detail: String, resumable: bool) -> (failure: Self)
        ensures
            failure@ == (FailureView { code: code@, detail: detail@, resumable }),
    {
        Failure { code, detail, resumable }
    }
}

/// What can go wrong around a transfer that is nobody's decision.
#[derive(Debug, Clone, Copy, PartialEq, Eq, Structural)]
pub enum Trouble {
    /// The partial could not be opened for reading, or the output not be opened, cut or wound.
    File,
    /// The request, the stream or a write of it broke off.
    Transfer,
}

/// The failure that an I/O error makes of a download. A transfer that broke off can be resumed.
pub open spec fn spec_io_failure(trouble: Trouble, error: Seq<char>) -> FailureView {
    FailureView { code: NETWORK_ERROR@, detail: error, resumable: trouble == Trouble::Transfer }
}

/// The failure that an I/O error makes of a download.
pub(crate) fn io_failure(trouble: Trouble, error: String) -> (failure: Failure)
    ensures
        failure@ == spec_io_failure(trouble, error@),
{
    let resumable = match trouble {
        Trouble::File => false,
        Trouble::Transfer => true,
    };
    Failure::new(NETWORK_ERROR, error, resumable)
}

/// The failure of a download for which there is no room.
pub open spec fn disk_full(required_bytes: nat, free_bytes: u64) -> FailureView {
    FailureView {
        code: DISK_FULL@,
        detail: "need "@ + text::decimal(required_bytes) + " bytes, "@ + text::decimal(
            free_bytes as nat,
        ) + " free"@,
        resumable: false,
    }
}

/// The failure of a download for which there is no room.
pub(crate) fn no_room(required_bytes: u128, free_bytes: u64) -> (failure: Failure)
    ensures
        failure@ == disk_full(required_bytes as nat, free_bytes),
{
    let mut detail = "need ".to_owned();
    detail.append(decimal_u128(required_bytes).as_str());
    detail.append(" bytes, ");
    detail.append(decimal_u64(free_bytes).as_str());
    detail.append(" free");
    Failure::new(DISK_FULL, detail, false)
}

/// The failure of a verified download that could not be moved into place.
pub open spec fn promote_failed(video_id: Seq<char>, error: Seq<char>) -> FailureView {
    FailureView {
        code: PROMOTE_FAILED@,
        detail: "could not move "@ + video_id + " into media/: "@ + error,
        resumable: true,
    }
}

/// The failure of a verified download that could not be moved into place.
pub(crate) fn not_promoted(video_id: &str, error: &str) -> (failure: Failure)
    ensures
        failure@ == promote_failed(video_id@, error@),
{
    let mut detail = "could not move ".to_owned();
    detail.append(video_id);
    detail.append(" into media/: ");
    detail.append(error);
    Failure::new(PROMOTE_FAILED, detail, true)
}

// ----------------------------------------------------------------- the partial

/// A partial that is being read through the digest: how many of its bytes count, how many of
/// those are still to be read, and the digest of the others.
pub struct Replay {
    pub have: u64,
    pub remaining: u64,
    pub digest: sha2::Sha256,
}

/// What a [`Replay`] stands for.
#[verifier::ext_equal]
pub struct ReplayView {
    pub have: u64,
    pub remaining: u64,
    pub covered: Seq<u8>,
}

impl View for Replay {
    type V = ReplayView;

    open spec fn view(&self) -> ReplayView {
        ReplayView {
            have: self.have,
            remaining: self.remaining,
            covered: digest::absorbed(self.digest),
        }
    }
}

impl ReplayView {
    /// A replay that has read nothing yet.
    pub open spec fn of(len: u64) -> Self {
        ReplayView { have: len, remaining: len, covered: Seq::empty() }
    }

    /// The digest covers exactly what has been read.
    pub open spec fn wf(self) -> bool {
        &&& self.remaining <= self.have
        &&& self.covered.len() == self.have - self.remaining
    }

    /// How much to read next.
    pub open spec fn want(self) -> nat {
        if self.remaining < BUFFER_BYTES {
            self.remaining as nat
        } else {
            BUFFER_BYTES as nat
        }
    }

    /// With more bytes read. Reading none means that the file shrank underneath: only what was
    /// actually hashed is trusted.
    pub open spec fn read(self, bytes: Seq<u8>) -> Self {
        if bytes.len() == 0 {
            ReplayView { have: (self.have - self.remaining) as u64, remaining: 0, ..self }
        } else {
            ReplayView {
                have: self.have,
                remaining: (self.remaining - bytes.len()) as u64,
                covered: self.covered + bytes,
            }
        }
    }
}

impl Replay {
    /// A replay that has read nothing yet.
    pub(crate) fn of(len: u64) -> (replay: Self)
        ensures
            replay@ == ReplayView::of(len),
    {
        Replay { have: len, remaining: len, digest: fresh_hasher() }
    }

    /// How much to read next.
    pub(crate) fn want(&self) -> (want: usize)
        ensures
            want == self@.want(),
    {
        if self.remaining < BUFFER_BYTES as u64 {
            self.remaining as usize
        } else {
            BUFFER_BYTES
        }
    }

    /// Goes on with what has been read; with nothing where reading failed.
    pub(crate) fn read(self, bytes: &[u8]) -> (replay: Self)
        requires
            self@.wf(),
            bytes.len() <= self.remaining,
        ensures
            replay@ == self@.read(bytes@),
            replay@.wf(),
    {
        let mut replay = self;
        if bytes.len() == 0 {
            replay.have = replay.have - replay.remaining;
            replay.remaining = 0;
        } else {
            absorb(&mut replay.digest, bytes);
            replay.remaining = replay.remaining - bytes.len() as u64;
        }
        replay
    }
}

// ---------------------------------------------------------------- the transfer

/// A transfer: how many bytes of the file are there, the percentage that was reported last, and
/// the digest of those bytes.
pub struct Transfer {
    pub written: u64,
    pub last_percent: u8,
    pub digest: sha2::Sha256,
}

/// What a [`Transfer`] stands for.
#[verifier::ext_equal]
pub struct TransferView {
    pub written: u64,
    pub last_percent: u8,
    pub covered: Seq<u8>,
}

impl View for Transfer {
    type V = TransferView;

    open spec fn view(&self) -> TransferView {
        TransferView {
            written: self.written,
            last_percent: self.last_percent,
            covered: digest::absorbed(self.digest),
        }
    }
}

/// Whether the partial of a failed download is removed, and the failure.
#[derive(Debug)]
pub struct Refusal {
    pub remove_partial: bool,
    pub failure: Failure,
}

/// What a [`Refusal`] stands for.
#[verifier::ext_equal]
pub struct RefusalView {
    pub remove_partial: bool,
    pub failure: FailureView,
}

impl View for Refusal {
    type V = RefusalView;

    open spec fn view(&self) -> RefusalView {
        RefusalView { remove_partial: self.remove_partial, failure: self.failure@ }
    }
}

/// How much of a file of `size` bytes is there, in whole percent; nothing for an empty file.
pub open spec fn percent_of(written: nat, size: nat) -> Option<u8> {
    if size == 0 {
        None
    } else if written >= size {
        Some(100)
    } else {
        Some((written * 100 / size) as u8)
    }
}

/// The header value that asks for everything from `have` on.
pub open spec fn range_value(have: u64) -> Seq<char> {
    "bytes="@ + text::decimal(have as nat) + "-"@
}

/// Whether a file is the one that was asked for: it has the digest, in whatever case.
pub open spec fn has_digest(content: Seq<u8>, sha256: Seq<char>) -> bool {
    text::lowered(text::hex_text(digest::sha256(content))) == text::lowered(sha256)
}

impl TransferView {
    /// A transfer that continues behind `covered`.
    pub open spec fn behind(covered: Seq<u8>) -> Self {
        TransferView { written: covered.len() as u64, last_percent: 255, covered }
    }

    /// The digest covers exactly what is there.
    pub open spec fn wf(self) -> bool {
        self.covered.len() == self.written
    }

    /// What an HTTP status makes of the transfer: it goes on, from zero where the server ignored
    /// the range, or it is refused.
    pub open spec fn answered(self, request: RequestView, status: u16) -> Result<
        TransferView,
        RefusalView,
    > {
        if status == 206 {
            Ok(self)
        } else if status == 200 {
            if self.written > 0 {
                Ok(TransferView { written: 0, covered: Seq::empty(), ..self })
            } else {
                Ok(self)
            }
        } else if status == 416 {
            Err(
                RefusalView {
                    remove_partial: true,
                    failure: FailureView {
                        code: RANGE_REJECTED@,
                        detail: "server rejected range at "@ + text::decimal(self.written as nat),
                        resumable: true,
                    },
                },
            )
        } else {
            Err(
                RefusalView {
                    remove_partial: false,
                    failure: FailureView {
                        code: HTTP_ERROR@,
                        detail: "HTTP "@ + text::decimal(status as nat) + " for "@ + request.url,
                        resumable: status >= 500,
                    },
                },
            )
        }
    }

    /// With one more chunk there.
    pub open spec fn received(self, size: u64, chunk: Seq<u8>) -> Self {
        let written = self.written + chunk.len();
        TransferView {
            written: written as u64,
            last_percent: match percent_of(written as nat, size as nat) {
                Some(percent) => percent,
                None => self.last_percent,
            },
            covered: self.covered + chunk,
        }
    }

    /// The percentage to report after a chunk: whole, and only where it changed.
    pub open spec fn progress(self, size: u64, chunk: Seq<u8>) -> Option<u8> {
        match percent_of((self.written + chunk.len()) as nat, size as nat) {
            Some(percent) if percent != self.last_percent => Some(percent),
            _ => None,
        }
    }

    /// The judgement on a transfer that has ended. One that is too short keeps its partial:
    /// that is precisely what resuming is for. One that is too long, or holds the wrong bytes,
    /// is poison to resume onto.
    pub open spec fn judged(self, request: RequestView) -> Option<RefusalView> {
        if self.written < request.size_bytes {
            Some(
                RefusalView {
                    remove_partial: false,
                    failure: FailureView {
                        code: INCOMPLETE@,
                        detail: "got "@ + text::decimal(self.written as nat) + " of "@
                            + text::decimal(request.size_bytes as nat) + " bytes"@,
                        resumable: true,
                    },
                },
            )
        } else if self.written > request.size_bytes {
            Some(
                RefusalView {
                    remove_partial: true,
                    failure: FailureView {
                        code: SIZE_MISMATCH@,
                        detail: "got "@ + text::decimal(self.written as nat) + ", expected "@
                            + text::decimal(request.size_bytes as nat),
                        resumable: false,
                    },
                },
            )
        } else if !has_digest(self.covered, request.sha256) {
            Some(
                RefusalView {
                    remove_partial: true,
                    failure: FailureView {
                        code: HASH_MISMATCH@,
                        detail: "expected "@ + request.sha256 + ", got "@ + text::hex_text(
                            digest::sha256(self.covered),
                        ),
                        resumable: false,
                    },
                },
            )
        } else {
            None
        }
    }
}

/// How much of a file of `size` bytes is there, in whole percent.
fn percent(written: u64, size: u64) -> (percent: Option<u8>)
    ensures
        percent == percent_of(written as nat, size as nat),
{
    if size == 0 {
        None
    } else if written >= size {
        Some(100)
    } else {
        let hundredfold: u128 = written as u128 * 100;
        proof {
            let whole = hundredfold as int / (size as int);
            assert(whole < 100) by (nonlinear_arith)
                requires
                    whole == hundredfold as int / (size as int),
                    hundredfold == written * 100,
                    written < size,
            ;
        }
        Some((hundredfold / size as u128) as u8)
    }
}

impl Transfer {
    /// A transfer from zero.
    pub(crate) fn fresh() -> (transfer: Self)
        ensures
            transfer@ == TransferView::behind(Seq::empty()),
    {
        Transfer { written: 0, last_percent: u8::MAX, digest: fresh_hasher() }
    }

    /// A transfer behind a partial that has been replayed.
    pub(crate) fn behind(replay: Replay) -> (transfer: Self)
        requires
            replay@.wf(),
            replay.remaining == 0,
        ensures
            transfer@ == TransferView::behind(replay@.covered),
    {
        Transfer { written: replay.have, last_percent: u8::MAX, digest: replay.digest }
    }

    /// The `Range` header for what is missing; none where nothing is there yet.
    pub(crate) fn range_header(&self) -> (value: Option<String>)
        ensures
            text::opt_text(value) == (if self.written > 0 {
                Some(range_value(self.written))
            } else {
                None
            }),
    {
        if self.written == 0 {
            return None;
        }
        let mut value = "bytes=".to_owned();
        value.append(decimal_u64(self.written).as_str());
        value.append("-");
        Some(value)
    }

    /// Goes on once the server has answered.
    pub(crate) fn answered(self, request: &Request, status: u16) -> (next: Result<Transfer, Refusal>)
        ensures
            match next {
                Ok(transfer) => self@.answered(request@, status) == Ok::<TransferView, RefusalView>(
                    transfer@,
                ),
                Err(refusal) => self@.answered(request@, status) == Err::<TransferView, RefusalView>(
                    refusal@,
                ),
            },
    {
        if status == 206 {
            Ok(self)
        } else if status == 200 {
            if self.written > 0 {
                // The server ignored the range: start over, and never splice.
                Ok(Transfer { written: 0, last_percent: self.last_percent, digest: fresh_hasher() })
            } else {
                Ok(self)
            }
        } else if status == 416 {
            // The partial is stale: the file behind this URL changed size.
            let mut detail = "server rejected range at ".to_owned();
            detail.append(decimal_u64(self.written).as_str());
            Err(
                Refusal { remove_partial: true, failure: Failure::new(RANGE_REJECTED, detail, true) },
            )
        } else {
            let mut detail = "HTTP ".to_owned();
            detail.append(decimal_u64(status as u64).as_str());
            detail.append(" for ");
            detail.append(request.url.as_str());
            Err(
                Refusal {
                    remove_partial: false,
                    failure: Failure::new(HTTP_ERROR, detail, status >= 500),
                },
            )
        }
    }

    /// Takes in a chunk that has been written. Gives the percentage to report, if any.
    pub(crate) fn received(self, size: u64, chunk: &[u8]) -> (next: (Transfer, Option<u8>))
        requires
            self.written + chunk.len() <= u64::MAX,
        ensures
            next.0@ == self@.received(size, chunk@),
            next.1 == self@.progress(size, chunk@),
    {
        let mut transfer = self;
        absorb(&mut transfer.digest, chunk);
        transfer.written = transfer.written + chunk.len() as u64;
        match percent(transfer.written, size) {
            Some(percent) => {
                if percent != transfer.last_percent {
                    transfer.last_percent = percent;
                    (transfer, Some(percent))
                } else {
                    (transfer, None)
                }
            },
            None => (transfer, None),
        }
    }

    /// Judges a transfer that has ended.
    pub(crate) fn judged(self, request: &Request) -> (refusal: Option<Refusal>)
        ensures
            match refusal {
                Some(refusal) => self@.judged(request@) == Some(refusal@),
                None => self@.judged(request@) is None,
            },
    {
        if self.written < request.size_bytes {
            let mut detail = "got ".to_owned();
            detail.append(decimal_u64(self.written).as_str());
            detail.append(" of ");
            detail.append(decimal_u64(request.size_bytes).as_str());
            detail.append(" bytes");
            return Some(
                Refusal { remove_partial: false, failure: Failure::new(INCOMPLETE, detail, true) },
            );
        }
        if self.written > request.size_bytes {
            let mut detail = "got ".to_owned();
            detail.append(decimal_u64(self.written).as_str());
            detail.append(", expected ");
            detail.append(decimal_u64(request.size_bytes).as_str());
            return Some(
                Refusal { remove_partial: true, failure: Failure::new(SIZE_MISMATCH, detail, false) },
            );
        }
        let actual = hex(finish(self.digest).as_slice());
        if !eq_ignore_case(actual.as_str(), request.sha256.as_str()) {
            let mut detail = "expected ".to_owned();
            detail.append(request.sha256.as_str());
            detail.append(", got ");
            detail.append(actual.as_str());
            return Some(
                Refusal { remove_partial: true, failure: Failure::new(HASH_MISMATCH, detail, false) },
            );
        }
        None
    }
}

} // verus!
