//! Per-session transcript logging.
//!
//! Two modes, because they serve different purposes: `Raw` keeps the byte
//! stream exactly as it arrived (escape sequences included) so a session can be
//! replayed, while `Clean` writes rendered text lines as they settle, for
//! reading and searching.
//!
//! Redaction matters here. Autologon types a password into the same stream
//! everything else flows through, so the writer is muted around that moment; a
//! transcript must never become a plaintext credential store.
//!
//! What is decided here is what goes into which file. Writing it there is the
//! caller's, and every write is to reach the file before the next: a transcript
//! is read while the session it belongs to is still open.

use vstd::prelude::*;
use vstd::slice::slice_to_vec;
use vstd::utf8::encode_utf8;

use super::history::byte_len;
use crate::config::LogMode;
use crate::text::{ascii_alnum, chars_of, is_alnum, same, texts};

verus! {

pub struct SessionLog {
    pub mode: LogMode,
    /// Bytes written, for size-based rotation.
    pub written: u64,
    /// Where a new file is started, or zero for never.
    pub max_bytes: u64,
    /// While true, output is dropped instead of written.
    pub muted: bool,
    /// Index of the next line not yet written, in `Clean` mode. Absolute over
    /// scrollback-then-screen, which is a coordinate a line keeps as it scrolls
    /// out of view.
    pub next_line: usize,
}

/// What is to be done with the file.
pub enum Write {
    Nothing,
    /// Start a new file with this.
    Rotate(Vec<u8>),
    /// Append this.
    Append(Vec<u8>),
}

pub enum WriteState {
    Nothing,
    Rotate(Seq<u8>),
    Append(Seq<u8>),
}

impl View for Write {
    type V = WriteState;

    open spec fn view(&self) -> WriteState {
        match *self {
            Write::Nothing => WriteState::Nothing,
            Write::Rotate(bytes) => WriteState::Rotate(bytes@),
            Write::Append(bytes) => WriteState::Append(bytes@),
        }
    }
}

pub open spec fn more(written: u64, bytes: int) -> u64 {
    if written + bytes > u64::MAX {
        u64::MAX
    } else {
        (written + bytes) as u64
    }
}

/// Lines `from..to` of a transcript, each ended by a line feed.
pub open spec fn lines_text(lines: Seq<Seq<char>>, from: int, to: int) -> Seq<char>
    decreases to - from,
{
    if from >= to {
        Seq::empty()
    } else {
        lines_text(lines, from, to - 1) + lines[to - 1].push('\n')
    }
}

/// How much lines `from..to` add to the size of a file that holds `written`.
pub open spec fn size_after(lines: Seq<Seq<char>>, written: u64, from: int, to: int) -> u64
    decreases to - from,
{
    if from >= to {
        written
    } else {
        more(size_after(lines, written, from, to - 1), byte_len(lines[to - 1]) + 1)
    }
}

impl SessionLog {
    pub open spec fn full(self) -> bool {
        self.max_bytes != 0 && self.written >= self.max_bytes
    }

    /// Bytes off the wire. Those that no longer fit land in the next file.
    pub open spec fn raw(self, bytes: Seq<u8>) -> (SessionLog, WriteState) {
        if self.mode != LogMode::Raw || self.muted {
            (self, WriteState::Nothing)
        } else if self.full() {
            (
                SessionLog { written: more(0, bytes.len() as int), ..self },
                WriteState::Rotate(bytes),
            )
        } else {
            (
                SessionLog { written: more(self.written, bytes.len() as int), ..self },
                WriteState::Append(bytes),
            )
        }
    }

    /// Rendered lines, of which the first `settled` are final. Those that no
    /// longer fit are left for the next file, which the next call writes to.
    pub open spec fn settle(self, lines: Seq<Seq<char>>, settled: usize) -> (
        SessionLog,
        WriteState,
    ) {
        let to = if settled <= lines.len() {
            settled as int
        } else {
            lines.len() as int
        };
        if self.mode != LogMode::Clean || self.muted {
            (self, WriteState::Nothing)
        } else if self.full() {
            (SessionLog { written: 0, ..self }, WriteState::Rotate(Seq::empty()))
        } else if lines.len() < self.next_line {
            (SessionLog { next_line: settled, ..self }, WriteState::Nothing)
        } else if settled <= self.next_line {
            (self, WriteState::Nothing)
        } else {
            (
                SessionLog {
                    next_line: settled,
                    written: size_after(lines, self.written, self.next_line as int, to),
                    ..self
                },
                WriteState::Append(encode_utf8(lines_text(lines, self.next_line as int, to))),
            )
        }
    }

    /// A transcript that has nothing in it yet.
    pub fn new(mode: LogMode, max_bytes: u64) -> (log: Self)
        ensures
            log == (SessionLog { mode, written: 0, max_bytes, muted: false, next_line: 0 }),
    {
        SessionLog { mode, written: 0, max_bytes, muted: false, next_line: 0 }
    }

    pub fn mode(&self) -> (mode: LogMode)
        ensures
            mode == self.mode,
    {
        self.mode
    }

    /// Suppresses writing until [`SessionLog::unmute`]. Used around the password
    /// step of autologon.
    pub fn mute(&mut self)
        ensures
            *final(self) == (SessionLog { muted: true, ..*old(self) }),
    {
        self.muted = true;
    }

    pub fn unmute(&mut self)
        ensures
            *final(self) == (SessionLog { muted: false, ..*old(self) }),
    {
        self.muted = false;
    }

    pub fn is_muted(&self) -> (yes: bool)
        ensures
            yes == self.muted,
    {
        self.muted
    }

    /// Starts a new file once the current one passes the size limit. Says
    /// whether it did, in which case the current write lands in the next file.
    fn rotate_if_full(&mut self) -> (rotated: bool)
        ensures
            rotated == old(self).full(),
            *final(self) == if rotated {
                SessionLog { written: 0, ..*old(self) }
            } else {
                *old(self)
            },
    {
        if self.max_bytes == 0 || self.written < self.max_bytes {
            return false;
        }
        self.written = 0;
        true
    }

    /// Raw mode: append bytes exactly as received.
    pub fn write_raw(&mut self, bytes: &[u8]) -> (write: Write)
        ensures
            (*final(self), write@) == old(self).raw(bytes@),
    {
        if self.mode != LogMode::Raw || self.muted {
            return Write::Nothing;
        }
        let rotated = self.rotate_if_full();
        self.written = self.written.saturating_add(bytes.len() as u64);
        if rotated {
            Write::Rotate(slice_to_vec(bytes))
        } else {
            Write::Append(slice_to_vec(bytes))
        }
    }

    /// Whether [`SessionLog::write_settled`] would look at the lines it is
    /// handed.
    ///
    /// Transcribing the whole grid to build them costs a string per line of
    /// history, so the caller asks first rather than doing that work for a log
    /// that is off, raw, or muted across the password step.
    pub fn wants_settled(&self) -> (yes: bool)
        ensures
            yes == (self.mode == LogMode::Clean && !self.muted),
    {
        self.mode == LogMode::Clean && !self.muted
    }

    /// Clean mode: append the rendered lines the session has finished with.
    ///
    /// `settled` is the number of lines the caller considers final: everything
    /// above the row the cursor is on. The row the cursor is on is left out: it
    /// is the line being typed or written, and logging it would put half a line
    /// in the file and the other half on the next one.
    ///
    /// Where fewer lines exist than have already been written, the history was
    /// thrown away: counting restarts from what is there now, or the transcript
    /// would go quiet until the history grew back past the old mark. The cursor
    /// moving back up the screen does not rewind the count: the lines it moved
    /// back over are already in the file.
    pub fn write_settled(&mut self, lines: &[String], settled: usize) -> (write: Write)
        ensures
            (*final(self), write@) == old(self).settle(texts(lines@), settled),
    {
        if self.mode != LogMode::Clean || self.muted {
            return Write::Nothing;
        }
        if self.rotate_if_full() {
            return Write::Rotate(Vec::new());
        }
        if lines.len() < self.next_line {
            self.next_line = settled;
            return Write::Nothing;
        }
        if settled <= self.next_line {
            return Write::Nothing;
        }
        let ghost want = texts(lines@);
        let from = self.next_line;
        let to = if settled <= lines.len() {
            settled
        } else {
            lines.len()
        };
        let mut text = String::new();
        let mut written = self.written;
        let mut i: usize = from;
        while i < to
            invariant
                from <= i <= to <= lines@.len(),
                want == texts(lines@),
                text@ == lines_text(want, from as int, i as int),
                written == size_after(want, old(self).written, from as int, i as int),
            decreases to - i,
        {
            assert(want[i as int] == lines@[i as int]@);
            let ghost before = text@;
            text.append(lines[i].as_str());
            text.push('\n');
            assert(text@ =~= before + want[i as int].push('\n'));
            written = written.saturating_add(lines[i].as_str().len() as u64).saturating_add(1);
            i += 1;
        }
        self.written = written;
        self.next_line = settled;
        Write::Append(slice_to_vec(text.as_str().as_bytes()))
    }

    /// A note of the terminal's own (session started, ended, reconnected) made
    /// at a given moment.
    pub fn write_note(&self, stamp: &str, note: &str) -> (write: Write)
        ensures
            write@ == if self.mode == LogMode::Off {
                WriteState::Nothing
            } else {
                WriteState::Append(
                    encode_utf8("\n=== "@ + stamp@ + seq![' '] + note@ + " ===\n"@),
                )
            },
    {
        if self.mode == LogMode::Off {
            return Write::Nothing;
        }
        let mut text = String::new();
        text.append("\n=== ");
        text.append(stamp);
        text.push(' ');
        text.append(note);
        text.append(" ===\n");
        assert(text@ =~= "\n=== "@ + stamp@ + seq![' '] + note@ + " ===\n"@);
        Write::Append(slice_to_vec(text.as_str().as_bytes()))
    }
}

// ---- names --------------------------------------------------------------

/// A name usable in a file name everywhere: what is not a letter, a digit, `-`
/// or `_` becomes a hyphen.
pub open spec fn cleaned(name: Seq<char>) -> Seq<char> {
    name.map_values(
        |c: char|
            if ascii_alnum(c) || c == '-' || c == '_' {
                c
            } else {
                '-'
            },
    )
}

/// Whether there is anything but hyphens in a text.
pub open spec fn says_something(s: Seq<char>) -> bool {
    exists|i: int| 0 <= i < s.len() && #[trigger] s[i] != '-'
}

pub open spec fn safe_name(name: Seq<char>) -> Seq<char> {
    if says_something(cleaned(name)) {
        cleaned(name)
    } else {
        "session"@
    }
}

/// Keeps a profile name usable as a filename on every platform.
pub fn sanitize(name: &str) -> (out: String)
    ensures
        out@ == safe_name(name@),
{
    let chars = chars_of(name);
    let mut out = String::new();
    let mut any = false;
    let mut i: usize = 0;
    let ghost want = cleaned(name@);
    while i < chars.len()
        invariant
            i <= chars@.len(),
            chars@ == name@,
            want == cleaned(name@),
            out@ =~= want.take(i as int),
            any == exists|k: int| 0 <= k < i && #[trigger] want[k] != '-',
        decreases chars.len() - i,
    {
        let c = chars[i];
        let kept = if is_alnum(c) || c == '-' || c == '_' {
            c
        } else {
            '-'
        };
        assert(want[i as int] == kept);
        out.push(kept);
        if kept != '-' {
            any = true;
        }
        i += 1;
    }
    assert(want.take(i as int) =~= want);
    if any {
        out
    } else {
        "session".to_owned()
    }
}

/// The file a transcript of a profile is kept in, opened at a given moment.
pub fn log_name(profile: &str, stamp: &str) -> (name: String)
    ensures
        name@ == safe_name(profile@) + seq!['-'] + stamp@ + ".log"@,
{
    let mut name = sanitize(profile);
    name.push('-');
    name.append(stamp);
    name.append(".log");
    assert(name@ =~= safe_name(profile@) + seq!['-'] + stamp@ + ".log"@);
    name
}

/// The file a transcript goes on in, given the name of the one that is full
/// without its ending.
pub fn rotated_name(stem: &str, stamp: &str) -> (name: String)
    ensures
        name@ == stem@ + seq!['-'] + stamp@ + ".log"@,
{
    let mut name = String::new();
    name.append(stem);
    name.push('-');
    name.append(stamp);
    name.append(".log");
    assert(name@ =~= stem@ + seq!['-'] + stamp@ + ".log"@);
    name
}

/// How old a log may get, in seconds; nothing if they are kept for good.
pub fn retention(days: u32) -> (secs: Option<u64>)
    ensures
        match secs {
            Some(secs) => days > 0 && secs == days * 86_400,
            None => days == 0,
        },
{
    if days == 0 {
        None
    } else {
        Some(days as u64 * 86_400)
    }
}

/// Whether a file is a log that has been kept long enough: one that was last
/// written before the cutoff. Nothing else in the folder is touched.
pub fn is_stale(extension: Option<&str>, modified: u64, cutoff: u64) -> (yes: bool)
    ensures
        yes == (extension matches Some(e) && e@ == "log"@ && modified < cutoff),
{
    match extension {
        Some(e) => same(e, "log") && modified < cutoff,
        None => false,
    }
}

// ---- laws ---------------------------------------------------------------

/// Nothing that comes in while a log is muted is ever written, and it leaves no
/// trace in what is written later.
pub proof fn muted_output_is_not_written(
    log: SessionLog,
    bytes: Seq<u8>,
    lines: Seq<Seq<char>>,
    settled: usize,
)
    requires
        log.muted,
    ensures
        log.raw(bytes) == (log, WriteState::Nothing),
        log.settle(lines, settled) == (log, WriteState::Nothing),
{
}

/// A log writes only what its mode is for.
pub proof fn a_mode_mismatch_writes_nothing(
    log: SessionLog,
    bytes: Seq<u8>,
    lines: Seq<Seq<char>>,
    settled: usize,
)
    ensures
        log.mode != LogMode::Raw ==> log.raw(bytes) == (log, WriteState::Nothing),
        log.mode != LogMode::Clean ==> log.settle(lines, settled) == (log, WriteState::Nothing),
{
}

/// What a raw log is handed is written, whether a new file is started for it or
/// not: nothing of the stream is lost.
pub proof fn rotating_loses_no_bytes(log: SessionLog, bytes: Seq<u8>)
    requires
        log.mode == LogMode::Raw,
        !log.muted,
    ensures
        log.raw(bytes).1 == WriteState::Append(bytes) || log.raw(bytes).1 == WriteState::Rotate(
            bytes,
        ),
        log.raw(bytes).1 is Rotate <==> log.full(),
{
}

/// Lines that came when a new file was started are written to it the next time.
pub proof fn rotating_loses_no_lines(log: SessionLog, lines: Seq<Seq<char>>, settled: usize)
    requires
        log.mode == LogMode::Clean,
        !log.muted,
        log.full(),
        log.next_line < settled <= lines.len(),
    ensures
        log.settle(lines, settled).1 == WriteState::Rotate(Seq::empty()),
        log.settle(lines, settled).0.settle(lines, settled).1 == WriteState::Append(
            encode_utf8(lines_text(lines, log.next_line as int, settled as int)),
        ),
{
}

proof fn text_in_pieces(lines: Seq<Seq<char>>, from: int, mid: int, to: int)
    requires
        0 <= from <= mid <= to <= lines.len(),
    ensures
        lines_text(lines, from, to) == lines_text(lines, from, mid) + lines_text(lines, mid, to),
    decreases to - mid,
{
    if mid < to {
        text_in_pieces(lines, from, mid, to - 1);
        assert(lines_text(lines, from, to) =~= lines_text(lines, from, mid) + lines_text(
            lines,
            mid,
            to,
        ));
    } else {
        assert(lines_text(lines, mid, to) =~= Seq::empty());
        assert(lines_text(lines, from, mid) + lines_text(lines, mid, to) =~= lines_text(
            lines,
            from,
            mid,
        ));
    }
}

/// A line is written once, however the count gets to it: settling in two goes
/// writes the same lines as settling in one, and going back up the screen
/// writes nothing and loses nothing.
pub proof fn every_line_is_written_once(
    log: SessionLog,
    lines: Seq<Seq<char>>,
    some: usize,
    all: usize,
)
    requires
        log.mode == LogMode::Clean,
        !log.muted,
        log.max_bytes == 0,
        log.next_line < some < all <= lines.len(),
    ensures
        ({
            let first = log.settle(lines, some);
            let second = first.0.settle(lines, all);
            let from = log.next_line as int;
            &&& first.1 == WriteState::Append(
                encode_utf8(lines_text(lines, from, some as int)),
            )
            &&& second.1 == WriteState::Append(
                encode_utf8(lines_text(lines, some as int, all as int)),
            )
            &&& lines_text(lines, from, all as int) == lines_text(lines, from, some as int)
                + lines_text(lines, some as int, all as int)
            &&& second.0.settle(lines, some) == (second.0, WriteState::Nothing)
        }),
{
    text_in_pieces(lines, log.next_line as int, some as int, all as int);
}

/// Throwing the history away does not silence the log: the line that settles
/// next is written.
pub proof fn a_cleared_history_does_not_silence_the_log(
    log: SessionLog,
    after: Seq<Seq<char>>,
)
    requires
        log.mode == LogMode::Clean,
        !log.muted,
        log.max_bytes == 0,
        0 < after.len() < log.next_line,
    ensures
        log.settle(after, 0).0.settle(after, 1).1 == WriteState::Append(
            encode_utf8(lines_text(after, 0, 1)),
        ),
{
}

} // verus!
