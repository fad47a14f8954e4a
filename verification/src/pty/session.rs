//! One live session, as far as it can be decided without the process or the
//! connection behind it.
//!
//! A blocking read cannot happen on the UI thread, so each session has a reader
//! thread that pushes byte chunks into a channel, and the UI drains that
//! channel once per frame. What comes off the channel is put together here.

use vstd::prelude::*;
use vstd::slice::slice_to_vec;
use vstd::utf8::encode_utf8;

use crate::text::{behind, chars_of, stands_at, strip, unicode_lower};

verus! {

/// What the reader thread reports back to the UI.
pub enum SessionEvent {
    Output(Vec<u8>),
    /// The reader hit EOF or an error: the child is gone.
    Closed,
}

/// What a look at the channel finds.
pub enum Received {
    Event(SessionEvent),
    /// Nothing for now.
    Empty,
    /// The reader is gone.
    Disconnected,
}

/// A drain of the channel under way.
pub struct Drain {
    pub bytes: Vec<u8>,
    /// Whether the session ended.
    pub ended: bool,
    /// Whether there is nothing more to look for.
    pub done: bool,
}

#[verifier::ext_equal]
pub struct DrainState {
    pub bytes: Seq<u8>,
    pub ended: bool,
    pub done: bool,
}

impl View for Drain {
    type V = DrainState;

    open spec fn view(&self) -> DrainState {
        DrainState { bytes: self.bytes@, ended: self.ended, done: self.done }
    }
}

impl DrainState {
    pub open spec fn start() -> DrainState {
        DrainState { bytes: Seq::empty(), ended: false, done: false }
    }

    /// What a look at the channel adds. A drain that is done takes no more.
    pub open spec fn took(self, received: Received) -> DrainState {
        if self.done {
            self
        } else {
            match received {
                Received::Event(SessionEvent::Output(chunk)) => DrainState {
                    bytes: self.bytes + chunk@,
                    ..self
                },
                Received::Event(SessionEvent::Closed) | Received::Disconnected => DrainState {
                    ended: true,
                    done: true,
                    ..self
                },
                Received::Empty => DrainState { done: true, ..self },
            }
        }
    }

    /// What looks at the channel add, one after the other.
    pub open spec fn took_all(self, received: Seq<Received>) -> DrainState
        decreases received.len(),
    {
        if received.len() == 0 {
            self
        } else {
            self.took_all(received.drop_last()).took(received.last())
        }
    }
}

impl Drain {
    pub fn new() -> (drain: Self)
        ensures
            drain@ == DrainState::start(),
    {
        let drain = Drain { bytes: Vec::new(), ended: false, done: false };
        assert(drain@ =~= DrainState::start());
        drain
    }

    /// Takes in what a look at the channel found. Says whether to look again.
    pub fn take(&mut self, received: Received) -> (again: bool)
        ensures
            final(self)@ == old(self)@.took(received),
            again == !final(self).done,
    {
        if self.done {
            return false;
        }
        match received {
            Received::Event(SessionEvent::Output(chunk)) => {
                let mut chunk = chunk;
                self.bytes.append(&mut chunk);
            },
            Received::Event(SessionEvent::Closed) | Received::Disconnected => {
                self.ended = true;
                self.done = true;
            },
            Received::Empty => {
                self.done = true;
            },
        }
        !self.done
    }
}

/// What a read brought.
pub enum Read {
    /// Bytes, or the end of the stream if there are none.
    Bytes(Vec<u8>),
    /// A signal came in between. The read is worth trying again.
    Interrupted,
    Failed,
}

/// What a reader thread does about a read.
pub struct Reaction {
    /// What goes back to the far side, before anything else is read.
    pub reply: Vec<u8>,
    /// What the UI is told, if anything.
    pub event: Option<SessionEvent>,
    /// Whether to read on.
    pub again: bool,
}

/// Whether a read is the last: the stream is over, or broken.
pub open spec fn is_last(read: Read) -> bool {
    match read {
        Read::Bytes(bytes) => bytes@.len() == 0,
        Read::Interrupted => false,
        Read::Failed => true,
    }
}

/// What the reader of a local session does about a read: everything it reads is
/// for the terminal.
pub fn local_reaction(read: Read) -> (reaction: Reaction)
    ensures
        reaction.reply@ == Seq::<u8>::empty(),
        reaction.again == !is_last(read),
        match reaction.event {
            Some(SessionEvent::Output(chunk)) => read matches Read::Bytes(bytes) && chunk@ == bytes@
                && bytes@.len() > 0,
            Some(SessionEvent::Closed) => is_last(read),
            None => read is Interrupted,
        },
{
    match read {
        Read::Bytes(bytes) => if bytes.len() == 0 {
            closing()
        } else {
            Reaction {
                reply: Vec::new(),
                event: Some(SessionEvent::Output(bytes)),
                again: true,
            }
        },
        Read::Interrupted => Reaction { reply: Vec::new(), event: None, again: true },
        Read::Failed => closing(),
    }
}

/// The reaction to a stream that is over.
pub(crate) fn closing() -> (reaction: Reaction)
    ensures
        reaction.reply@ == Seq::<u8>::empty(),
        reaction.event == Some(SessionEvent::Closed),
        !reaction.again,
{
    Reaction { reply: Vec::new(), event: Some(SessionEvent::Closed), again: false }
}

/// The least a terminal measures, either way.
pub const LEAST: u16 = 2;

pub open spec fn at_least(n: u16) -> u16 {
    if n < LEAST {
        LEAST
    } else {
        n
    }
}

/// The size a terminal settles on. It matters when a session starts: IRIS reads
/// the dimensions once at login.
pub fn settled_size(cols: u16, rows: u16) -> (size: (u16, u16))
    ensures
        size == (at_least(cols), at_least(rows)),
{
    (
        if cols < LEAST {
            LEAST
        } else {
            cols
        },
        if rows < LEAST {
            LEAST
        } else {
            rows
        },
    )
}

/// The size to change to, or nothing if it is the size already.
pub fn size_change(now: (u16, u16), cols: u16, rows: u16) -> (size: Option<(u16, u16)>)
    ensures
        size == if (at_least(cols), at_least(rows)) == now {
            None
        } else {
            Some((at_least(cols), at_least(rows)))
        },
{
    let (cols, rows) = settled_size(cols, rows);
    let (had_cols, had_rows) = now;
    if cols == had_cols && rows == had_rows {
        return None;
    }
    Some((cols, rows))
}

/// What ends the session cleanly. Killing the process can leave the instance
/// holding locks.
pub const HALT: &'static str = "HALT";

/// A line as pressing Enter would send it: IRIS expects CR, never LF, whatever
/// the host operating system or the transport.
pub fn line_bytes(text: &str) -> (bytes: Vec<u8>)
    ensures
        bytes@ == encode_utf8(text@).push(0x0d),
{
    let mut bytes = slice_to_vec(text.as_bytes());
    bytes.push(0x0d);
    bytes
}

/// What a failed start says it was starting.
pub fn started(instance: &str) -> (what: String)
    ensures
        what@ == "IRIS session for instance "@ + instance@,
{
    let mut what = "IRIS session for instance ".to_owned();
    what.append(instance);
    what
}

// ---- the process to report ----------------------------------------------

pub open spec fn ends_with(s: Seq<char>, end: Seq<char>) -> bool {
    s.len() >= end.len() && s.skip(s.len() - end.len()) == end
}

/// Whether a program is a shell in front of the session rather than the session
/// itself.
pub fn is_wrapper(program: &str) -> (yes: bool)
    ensures
        yes == ends_with(unicode_lower(program@), "cmd.exe"@),
{
    let small = program.to_lowercase();
    let chars = chars_of(small.as_str());
    let end = chars_of("cmd.exe");
    if chars.len() < end.len() {
        return false;
    }
    let at = chars.len() - end.len();
    assert(chars@.skip(at as int) =~= chars@.subrange(at as int, at + end@.len()));
    stands_at(chars.as_slice(), at, end.as_slice())
}

/// A running process.
pub struct Process {
    pub pid: u32,
    pub parent: u32,
    pub name: String,
}

/// Whether a process is a session, rather than anything else a shell may have
/// run on its way there.
pub open spec fn is_session(name: Seq<char>) -> bool {
    let small = unicode_lower(name);
    behind(small, "irissession"@) is Some || behind(small, "csession"@) is Some
}

/// The first session that a shell started.
pub open spec fn session_of(processes: Seq<Process>, shell: u32) -> Option<u32>
    decreases processes.len(),
{
    if processes.len() == 0 {
        None
    } else if processes[0].parent == shell && is_session(processes[0].name@) {
        Some(processes[0].pid)
    } else {
        session_of(processes.skip(1), shell)
    }
}

/// The first process that a shell started.
pub open spec fn child_of(processes: Seq<Process>, shell: u32) -> Option<u32>
    decreases processes.len(),
{
    if processes.len() == 0 {
        None
    } else if processes[0].parent == shell {
        Some(processes[0].pid)
    } else {
        child_of(processes.skip(1), shell)
    }
}

/// The process a shell started: the session if there is one, otherwise whatever
/// came first.
pub fn session_under(processes: &Vec<Process>, shell: u32) -> (pid: Option<u32>)
    ensures
        pid == if session_of(processes@, shell) is Some {
            session_of(processes@, shell)
        } else {
            child_of(processes@, shell)
        },
{
    let mut first: Option<u32> = None;
    let mut i: usize = 0;
    assert(processes@.skip(0) =~= processes@);
    while i < processes.len()
        invariant
            i <= processes@.len(),
            session_of(processes@, shell) == session_of(processes@.skip(i as int), shell),
            child_of(processes@, shell) == if first is Some {
                first
            } else {
                child_of(processes@.skip(i as int), shell)
            },
        decreases processes.len() - i,
    {
        assert(processes@.skip(i as int).skip(1) =~= processes@.skip(i + 1));
        assert(processes@.skip(i as int)[0] == processes@[i as int]);
        let process = &processes[i];
        if process.parent == shell {
            let small = process.name.as_str().to_lowercase();
            if strip(small.as_str(), "irissession").is_some() || strip(
                small.as_str(),
                "csession",
            ).is_some() {
                return Some(process.pid);
            }
            if first.is_none() {
                first = Some(process.pid);
            }
        }
        i += 1;
    }
    assert(processes@.skip(i as int).len() == 0);
    first
}

/// The process the user means, which is not always the child that was started:
/// a session opened through a shell is the shell's child. While there is
/// nothing under the shell it is still starting, and saying nothing is better
/// than naming the shell.
///
/// `known` is what an earlier look found, and `found` what a look now finds.
pub fn process_to_report(
    own: Option<u32>,
    wrapped: bool,
    known: Option<u32>,
    found: Option<u32>,
) -> (pid: Option<u32>)
    ensures
        pid == if own is None {
            None
        } else if !wrapped {
            own
        } else if known is Some {
            known
        } else {
            found
        },
{
    if own.is_none() {
        return None;
    }
    if !wrapped {
        return own;
    }
    if known.is_some() {
        return known;
    }
    found
}

// ---- laws ---------------------------------------------------------------

/// The bytes of the chunks in front of a look that ends a drain.
pub open spec fn output_of(received: Seq<Received>) -> Seq<u8>
    decreases received.len(),
{
    if received.len() == 0 {
        Seq::empty()
    } else {
        match received[0] {
            Received::Event(SessionEvent::Output(chunk)) => chunk@ + output_of(received.skip(1)),
            _ => Seq::empty(),
        }
    }
}

proof fn taking_all_starts_with_one(state: DrainState, received: Seq<Received>)
    requires
        received.len() > 0,
    ensures
        state.took_all(received) == state.took(received[0]).took_all(received.skip(1)),
    decreases received.len(),
{
    reveal_with_fuel(DrainState::took_all, 2);
    if received.len() > 1 {
        taking_all_starts_with_one(state, received.drop_last());
        assert(received.drop_last().skip(1) =~= received.skip(1).drop_last());
        assert(received.skip(1).last() == received.last());
    } else {
        assert(received.drop_last() =~= Seq::empty());
        assert(received.skip(1) =~= Seq::empty());
    }
}

proof fn done_takes_no_more(state: DrainState, received: Seq<Received>)
    requires
        state.done,
    ensures
        state.took_all(received) == state,
    decreases received.len(),
{
    if received.len() > 0 {
        done_takes_no_more(state, received.drop_last());
    }
}

proof fn drained(state: DrainState, received: Seq<Received>)
    requires
        !state.done,
    ensures
        state.took_all(received).bytes == state.bytes + output_of(received),
    decreases received.len(),
{
    if received.len() > 0 {
        taking_all_starts_with_one(state, received);
        let next = state.took(received[0]);
        if next.done {
            done_takes_no_more(next, received.skip(1));
            assert(state.bytes + output_of(received) =~= state.bytes);
        } else {
            drained(next, received.skip(1));
            assert(state.bytes + output_of(received) =~= next.bytes + output_of(received.skip(1)));
        }
    } else {
        assert(state.bytes + output_of(received) =~= state.bytes);
    }
}

/// A drain hands over every chunk in front of the look that ended it, in order,
/// and nothing from behind it.
pub proof fn nothing_is_lost_or_reordered(received: Seq<Received>)
    ensures
        DrainState::start().took_all(received).bytes == output_of(received),
{
    drained(DrainState::start(), received);
    assert(DrainState::start().bytes + output_of(received) =~= output_of(received));
}

} // verus!
