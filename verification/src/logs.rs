//! The rotating log.
//!
//! Two files of 2.5 MB, so that whoever asks for the log from the dashboard has roughly the last
//! 5 MB to draw on, and a screen that has been up for months does not quietly fill its disk with
//! its own diagnostics.

use vstd::prelude::*;
use vstd::string::*;
use vstd::utf8::*;

verus! {

/// Two of these are the last ~5 MB.
pub const MAX_FILE_BYTES: u64 = 2_500_000;

/// One frame's worth; enough to see what went wrong without flooding the socket.
pub const DEFAULT_TAIL_BYTES: usize = 65_536;

/// How much a line matters.
#[derive(Debug, Clone, Copy, PartialEq, Eq, Structural)]
pub enum Level {
    Error,
    Warn,
    Info,
    Debug,
}

impl Level {
    /// The letter that stands for a level in the log.
    pub open spec fn spec_letter(self) -> Seq<char> {
        match self {
            Level::Error => "E"@,
            Level::Warn => "W"@,
            Level::Info => "I"@,
            Level::Debug => "D"@,
        }
    }

    /// The letter that stands for a level in the log.
    pub fn letter(self) -> (letter: &'static str)
        ensures
            letter@ == self.spec_letter(),
    {
        match self {
            Level::Error => "E",
            Level::Warn => "W",
            Level::Info => "I",
            Level::Debug => "D",
        }
    }
}

/// The name of the file that is written to.
pub fn current() -> (name: String)
    ensures
        name@ == "signage.log"@,
{
    "signage.log".to_owned()
}

/// The name of the file that was written to before.
pub fn previous() -> (name: String)
    ensures
        name@ == "signage.1.log"@,
{
    "signage.1.log".to_owned()
}

/// A line of the log: when, how much it matters, and what.
pub open spec fn line_text(stamp: Seq<char>, level: Level, message: Seq<char>) -> Seq<char> {
    stamp + " "@ + level.spec_letter() + " "@ + message
}

/// A line of the log.
pub fn write(stamp: &str, level: Level, message: &str) -> (line: String)
    ensures
        line@ == line_text(stamp@, level, message@),
{
    let mut line = stamp.to_owned();
    line.append(" ");
    line.append(level.letter());
    line.append(" ");
    line.append(message);
    line
}

// ------------------------------------------------------------------- rotation

/// Whether a file of this size, if it exists, is full.
pub open spec fn is_full(size: Option<nat>) -> bool {
    size matches Some(size) && size >= MAX_FILE_BYTES
}

/// A line as it stands in the file: with a line feed behind it.
pub open spec fn entry_of(line: Seq<char>) -> Seq<char> {
    line + "\n"@
}

/// How much of a file of so many bytes is read for a tail.
pub open spec fn window_of(len: nat) -> nat {
    if len < MAX_FILE_BYTES {
        len
    } else {
        MAX_FILE_BYTES as nat
    }
}

/// The two files of the log.
#[verifier::ext_equal]
pub struct LogFiles {
    pub previous: Option<Seq<u8>>,
    pub current: Option<Seq<u8>>,
}

impl LogFiles {
    /// The bytes of a file; none where it does not exist.
    pub open spec fn bytes(file: Option<Seq<u8>>) -> Seq<u8> {
        match file {
            Some(bytes) => bytes,
            None => Seq::empty(),
        }
    }

    /// Everything the log holds, oldest first.
    pub open spec fn all(self) -> Seq<u8> {
        Self::bytes(self.previous) + Self::bytes(self.current)
    }

    /// With a full current file moved to the previous one's place.
    pub open spec fn rotated(self) -> Self {
        if self.current matches Some(bytes) && bytes.len() >= MAX_FILE_BYTES {
            LogFiles { previous: self.current, current: None }
        } else {
            self
        }
    }

    /// With one more line, and a line feed behind it.
    pub open spec fn appended(self, line: Seq<char>) -> Self {
        let files = self.rotated();
        LogFiles { current: Some(Self::bytes(files.current) + encode_utf8(line + "\n"@)), ..files }
    }
}

/// Whether the current file, of this size if it exists, has to make room for a new one first.
pub fn rotate_if_needed(size: Option<u64>) -> (rotate: bool)
    ensures
        rotate == (size matches Some(size) && size >= MAX_FILE_BYTES),
        rotate == is_full(
            match size {
                Some(size) => Some(size as nat),
                None => None,
            },
        ),
{
    match size {
        Some(size) => size >= MAX_FILE_BYTES,
        None => false,
    }
}

/// What goes into the file for a line.
pub fn append(line: &str) -> (entry: String)
    ensures
        entry@ == line@ + "\n"@,
        entry@ == entry_of(line@),
{
    let mut entry = line.to_owned();
    entry.append("\n");
    entry
}

/// How many bytes at the end of a file of `len` bytes are read for a tail; these files are
/// megabytes.
pub fn tail_window(len: u64) -> (want: u64)
    ensures
        want == (if len < MAX_FILE_BYTES {
            len
        } else {
            MAX_FILE_BYTES
        }),
        want == window_of(len as nat),
{
    if len < MAX_FILE_BYTES {
        len
    } else {
        MAX_FILE_BYTES
    }
}

// ----------------------------------------------------------------------- tail

/// The first line feed at or behind `from`; the end where there is none.
pub open spec fn line_feed_from(bytes: Seq<u8>, from: int) -> int
    decreases bytes.len() - from,
{
    if from >= bytes.len() || bytes[from] == 10 {
        from
    } else {
        line_feed_from(bytes, from + 1)
    }
}

/// Where a tail of at most `max` bytes begins: behind the first line feed of the last `max`
/// bytes, or at the end where they hold none.
pub open spec fn tail_start(bytes: Seq<u8>, max: nat) -> int {
    if bytes.len() <= max {
        0
    } else {
        let feed = line_feed_from(bytes, bytes.len() - max);
        if feed < bytes.len() {
            feed + 1
        } else {
            bytes.len() as int
        }
    }
}

/// The tail of a log, and whether anything is missing in front of it.
pub open spec fn tail_and_cut(bytes: Seq<u8>, max: nat) -> (Seq<u8>, bool) {
    (bytes.skip(tail_start(bytes, max)), bytes.len() > max)
}

/// The text that bytes stand for, with what is not valid UTF-8 in them replaced.
pub uninterp spec fn lossy_text(bytes: Seq<u8>) -> Seq<char>;

/// `String::from_utf8_lossy`: a function of the bytes alone, and the text they encode where they
/// are valid UTF-8. Where exactly replacement characters stand otherwise is not said.
#[verifier::external_body]
fn decode_lossy(bytes: &[u8]) -> (text: String)
    ensures
        text@ == lossy_text(bytes@),
        valid_utf8(bytes@) ==> encode_utf8(text@) == bytes@,
{
    String::from_utf8_lossy(bytes).into_owned()
}

/// The tail of the rolling log, for whoever asks from the dashboard: `(text, truncated)`, given
/// the ends of its two files. What is valid UTF-8 is taken as it is.
pub fn tail(previous: &[u8], current: &[u8], max_bytes: usize) -> (tail: (String, bool))
    ensures
        ({
            let bytes = encode_utf8(lossy_text(previous@) + lossy_text(current@));
            &&& encode_utf8(tail.0@) == bytes.skip(tail_start(bytes, max_bytes as nat))
            &&& tail.1 == (bytes.len() > max_bytes)
        }),
        (encode_utf8(tail.0@), tail.1) == tail_and_cut(
            encode_utf8(lossy_text(previous@) + lossy_text(current@)),
            max_bytes as nat,
        ),
        valid_utf8(previous@) && valid_utf8(current@) ==> ({
            let bytes = previous@ + current@;
            &&& encode_utf8(tail.0@) == bytes.skip(tail_start(bytes, max_bytes as nat))
            &&& tail.1 == (bytes.len() > max_bytes)
        }),
{
    let previous = decode_lossy(previous);
    let current = decode_lossy(current);
    proof {
        lemma_encode_both(previous@, current@);
    }
    tail_of(previous.as_str(), current.as_str(), max_bytes)
}

/// Texts one behind the other are encoded one behind the other.
proof fn lemma_encode_both(a: Seq<char>, b: Seq<char>)
    ensures
        encode_utf8(a + b) == encode_utf8(a) + encode_utf8(b),
    decreases a.len(),
{
    if a.len() == 0 {
        assert(a + b =~= b);
        assert(encode_utf8(a) + encode_utf8(b) =~= encode_utf8(b));
    } else {
        lemma_encode_both(a.drop_first(), b);
        assert((a + b).drop_first() =~= a.drop_first() + b);
        assert(encode_utf8(a + b) =~= encode_utf8(a) + encode_utf8(b));
    }
}

/// The first line feed at or behind `from`; the end where there is none.
fn find_line_feed(bytes: &[u8], from: usize) -> (feed: usize)
    requires
        from <= bytes.len(),
    ensures
        feed == line_feed_from(bytes@, from as int),
        from <= feed <= bytes.len(),
        feed < bytes.len() ==> bytes[feed as int] == 10,
{
    let mut i: usize = from;
    while i < bytes.len() && bytes[i] != 10
        invariant
            from <= i <= bytes.len(),
            line_feed_from(bytes@, from as int) == line_feed_from(bytes@, i as int),
        decreases bytes.len() - i,
    {
        i += 1;
    }
    i
}

/// The tail of a log: `(text, truncated)`.
///
/// The cut is made at the first newline at or after the budget, so the reply never opens
/// mid-line. Where no newline follows, nothing is left of it.
pub fn tail_of(previous: &str, current: &str, max_bytes: usize) -> (tail: (String, bool))
    ensures
        ({
            let bytes = encode_utf8(previous@ + current@);
            &&& encode_utf8(tail.0@) == bytes.skip(tail_start(bytes, max_bytes as nat))
            &&& tail.1 == (bytes.len() > max_bytes)
        }),
        (encode_utf8(tail.0@), tail.1) == tail_and_cut(
            encode_utf8(previous@ + current@),
            max_bytes as nat,
        ),
{
    broadcast use {encode_utf8_valid_utf8, is_char_boundary_start_end_of_seq};

    let mut text = previous.to_owned();
    text.append(current);
    let bytes = text.as_str().as_bytes();
    let ghost all = encode_utf8(previous@ + current@);
    let len = bytes.len();
    if len <= max_bytes {
        assert(all.skip(0) =~= all);
        return (text, false);
    }
    let start = len - max_bytes;
    let i = find_line_feed(bytes, start);
    let cut = if i < len {
        proof {
            lemma_boundary_behind_ascii(all, i as int);
        }
        i + 1
    } else {
        len
    };
    let (before, behind) = text.as_str().split_at(cut);
    assert(all.subrange(cut as int, all.len() as int) =~= all.skip(cut as int));
    (behind.to_owned(), true)
}

/// Behind a byte that is a character of its own, another character begins.
proof fn lemma_boundary_behind_ascii(bytes: Seq<u8>, index: int)
    requires
        valid_utf8(bytes),
        0 <= index < bytes.len(),
        bytes[index] < 0x80,
    ensures
        is_char_boundary(bytes, index + 1),
    decreases bytes.len(),
{
    reveal_with_fuel(is_char_boundary, 2);
    utf8_byte_ranges_bitwise(bytes[index]);
    let first = length_of_first_scalar(bytes);
    if index >= first {
        lemma_boundary_behind_ascii(pop_first_scalar(bytes), index - first);
    } else if index > 0 {
        utf8_byte_ranges_bitwise(bytes[0]);
        is_char_boundary_iff_not_is_continuation_byte(bytes, index);
    }
}

// ----------------------------------------------------------------------- laws

/// A tail is an end of the log, no longer than was asked for, and is called truncated exactly
/// where something is missing at its front.
pub proof fn law_a_tail_is_an_end_of_the_log(bytes: Seq<u8>, max: nat)
    ensures
        0 <= tail_start(bytes, max) <= bytes.len(),
        bytes.skip(tail_start(bytes, max)).len() <= max,
        bytes.len() <= max ==> bytes.skip(tail_start(bytes, max)) == bytes,
        bytes.len() > max ==> bytes.skip(tail_start(bytes, max)).len() < bytes.len(),
{
    if bytes.len() > max {
        lemma_line_feed_from(bytes, bytes.len() - max);
    } else {
        assert(bytes.skip(0) =~= bytes);
    }
}

/// A tail never opens mid-line: it is the whole log, it is empty, or the byte in front of it is a
/// line feed, the first one of the last `max` bytes.
pub proof fn law_a_tail_never_opens_mid_line(bytes: Seq<u8>, max: nat)
    ensures
        ({
            let start = tail_start(bytes, max);
            ||| start == 0 && bytes.len() <= max
            ||| bytes.skip(start).len() == 0
            ||| {
                &&& bytes.len() - max < start
                &&& bytes[start - 1] == 10
            }
        }),
        bytes.len() > max ==> forall|i: int|
            bytes.len() - max <= i < tail_start(bytes, max) - 1 ==> #[trigger] bytes[i] != 10,
{
    if bytes.len() > max {
        lemma_line_feed_from(bytes, bytes.len() - max);
    }
}

proof fn lemma_line_feed_from(bytes: Seq<u8>, from: int)
    requires
        0 <= from <= bytes.len(),
    ensures
        from <= line_feed_from(bytes, from) <= bytes.len(),
        line_feed_from(bytes, from) < bytes.len() ==> bytes[line_feed_from(bytes, from)] == 10,
        forall|i: int| from <= i < line_feed_from(bytes, from) ==> #[trigger] bytes[i] != 10,
    decreases bytes.len() - from,
{
    if from < bytes.len() && bytes[from] != 10 {
        lemma_line_feed_from(bytes, from + 1);
    }
}

/// The log stays small: as long as no line with its line feed is longer than `longest`, neither
/// file reaches `MAX_FILE_BYTES + longest` bytes.
pub proof fn law_the_log_does_not_fill_the_disk(files: LogFiles, line: Seq<char>, longest: nat)
    requires
        encode_utf8(line + "\n"@).len() <= longest,
        LogFiles::bytes(files.previous).len() < MAX_FILE_BYTES + longest,
        LogFiles::bytes(files.current).len() < MAX_FILE_BYTES + longest,
    ensures
        LogFiles::bytes(files.appended(line).previous).len() < MAX_FILE_BYTES + longest,
        LogFiles::bytes(files.appended(line).current).len() < MAX_FILE_BYTES + longest,
{
}

/// Rotation loses nothing but the previous file, and a line is added behind everything else.
pub proof fn law_rotation_moves_current_to_previous(files: LogFiles, line: Seq<char>)
    ensures
        ({
            let after = files.appended(line);
            let entry = encode_utf8(line + "\n"@);
            &&& LogFiles::bytes(files.current).len() < MAX_FILE_BYTES ==> after.all() == files.all()
                + entry && after.previous == files.previous
            &&& LogFiles::bytes(files.current).len() >= MAX_FILE_BYTES ==> after.previous
                == files.current && after.current == Some(entry)
        }),
{
    let after = files.appended(line);
    let entry = encode_utf8(line + "\n"@);
    assert(Seq::<u8>::empty() + entry =~= entry);
    if LogFiles::bytes(files.current).len() < MAX_FILE_BYTES {
        assert(after.all() =~= files.all() + entry);
    }
}

/// A line is the stamp, the letter of its level and the message, with a blank between them; the
/// four levels have the letters E, W, I and D.
pub proof fn law_a_line_is_stamp_letter_and_message(stamp: Seq<char>, message: Seq<char>)
    ensures
        line_text(stamp, Level::Error, message) == stamp + " E "@ + message,
        line_text(stamp, Level::Warn, message) == stamp + " W "@ + message,
        line_text(stamp, Level::Info, message) == stamp + " I "@ + message,
        line_text(stamp, Level::Debug, message) == stamp + " D "@ + message,
{
    reveal_strlit(" ");
    reveal_strlit("E");
    reveal_strlit("W");
    reveal_strlit("I");
    reveal_strlit("D");
    reveal_strlit(" E ");
    reveal_strlit(" W ");
    reveal_strlit(" I ");
    reveal_strlit(" D ");
    assert(line_text(stamp, Level::Error, message) =~= stamp + " E "@ + message);
    assert(line_text(stamp, Level::Warn, message) =~= stamp + " W "@ + message);
    assert(line_text(stamp, Level::Info, message) =~= stamp + " I "@ + message);
    assert(line_text(stamp, Level::Debug, message) =~= stamp + " D "@ + message);
}

/// A tail is as long as it can be: where anything is missing that would have fit, it is the rest of
/// a line whose beginning would not have fit.
pub proof fn law_a_tail_is_as_long_as_it_can_be(bytes: Seq<u8>, max: nat, start: int)
    requires
        bytes.len() > max,
        bytes.len() - max < start < bytes.len(),
        bytes[start - 1] == 10,
    ensures
        tail_start(bytes, max) <= start,
{
    lemma_line_feed_from(bytes, bytes.len() - max);
}

/// A file is full from 2.5 MB on, which is also all that is read of it; a dashboard is sent 64 KiB.
pub proof fn law_the_sizes_of_the_log(size: nat)
    ensures
        is_full(Some(size)) <==> size >= 2_500_000,
        !is_full(None),
        size <= 2_500_000 ==> window_of(size) == size,
        size >= 2_500_000 ==> window_of(size) == 2_500_000,
        DEFAULT_TAIL_BYTES == 65_536,
{
}

/// The log rotates exactly where its current file is full: that file becomes the previous one.
pub proof fn law_the_log_rotates_when_it_is_full(files: LogFiles)
    requires
        files.current is Some,
    ensures
        is_full(Some(files.current->0.len())) ==> files.rotated().previous == files.current
            && files.rotated().current is None,
        !is_full(Some(files.current->0.len())) ==> files.rotated().previous == files.previous
            && files.rotated().current == files.current,
{
}

/// A line is followed by a line feed, and by nothing else.
pub proof fn law_a_line_ends_with_a_line_feed(files: LogFiles, line: Seq<char>)
    ensures
        entry_of(line).len() == line.len() + 1,
        entry_of(line).take(line.len() as int) == line,
        entry_of(line).last() == '\n',
        encode_utf8(entry_of(line)).is_suffix_of(LogFiles::bytes(files.appended(line).current)),
{
    reveal_strlit("\n");
    assert(entry_of(line).take(line.len() as int) =~= line);
    let entry = encode_utf8(entry_of(line));
    let bytes = LogFiles::bytes(files.appended(line).current);
    assert(entry =~= bytes.subrange(bytes.len() - entry.len(), bytes.len() as int));
}

/// A tail is an end of the log, and it is said to be cut exactly where it is shorter than the log.
pub proof fn law_a_cut_tail_is_said_to_be_cut(bytes: Seq<u8>, max: nat)
    ensures
        ({
            let (tail, cut) = tail_and_cut(bytes, max);
            &&& tail.len() <= max
            &&& tail == bytes.skip(bytes.len() - tail.len())
            &&& cut <==> tail.len() < bytes.len()
        }),
{
    law_a_tail_is_an_end_of_the_log(bytes, max);
}

} // verus!
