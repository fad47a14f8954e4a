//! A session on a remote server, reached over Telnet.
//!
//! Everything but the socket: what is sent when the connection opens, what is
//! made of what comes in, and what goes out for what is typed.

use vstd::prelude::*;
use vstd::utf8::encode_utf8;

use super::session::{
    at_least, closing, is_last, line_bytes, settled_size, size_change, Reaction, Read,
    SessionEvent, HALT,
};
use super::telnet::{
    chunks_make_no_difference, Codec, CodecState, DO, IAC, OPT_ECHO, OPT_NAWS, OPT_SGA, OPT_TTYPE,
    WILL,
};
use crate::text::{decimal, digits};

verus! {

pub struct TelnetSession {
    pub codec: Codec,
    pub cols: u16,
    pub rows: u16,
    /// Set once the stream is over, or was dropped from this side.
    pub closed: bool,
    /// Where the connection leads, for error messages and the tab's tooltip.
    pub endpoint: String,
}

#[verifier::ext_equal]
pub struct RemoteState {
    pub codec: CodecState,
    pub cols: u16,
    pub rows: u16,
    pub closed: bool,
    pub endpoint: Seq<char>,
}

impl View for TelnetSession {
    type V = RemoteState;

    open spec fn view(&self) -> RemoteState {
        RemoteState {
            codec: self.codec@,
            cols: self.cols,
            rows: self.rows,
            closed: self.closed,
            endpoint: self.endpoint@,
        }
    }
}

/// An address and a port, as a resolver takes them.
pub open spec fn endpoint_of(address: Seq<char>, port: u16) -> Seq<char> {
    address + seq![':'] + digits(port as nat)
}

pub fn endpoint(address: &str, port: u16) -> (text: String)
    ensures
        text@ == endpoint_of(address@, port),
{
    let mut text = address.to_owned();
    text.push(':');
    text.append(decimal(port as u64).as_str());
    assert(text@ =~= endpoint_of(address@, port));
    text
}

/// What is said when a connection opens.
pub open spec fn opening() -> Seq<u8> {
    seq![IAC, WILL, OPT_TTYPE, IAC, WILL, OPT_NAWS, IAC, DO, OPT_SGA, IAC, DO, OPT_ECHO]
}

impl RemoteState {
    /// A session that has just been opened and greeted.
    pub open spec fn opened(address: Seq<char>, port: u16, cols: u16, rows: u16) -> RemoteState {
        let codec = CodecState::fresh();
        RemoteState {
            codec: CodecState {
                size: (at_least(cols), at_least(rows)),
                us: codec.us.update(OPT_TTYPE as int, true).update(OPT_NAWS as int, true),
                them: codec.them.update(OPT_SGA as int, true).update(OPT_ECHO as int, true),
                ..codec
            },
            cols: at_least(cols),
            rows: at_least(rows),
            closed: false,
            endpoint: endpoint_of(address, port),
        }
    }

    /// The session after a read.
    pub open spec fn heard(self, read: Read) -> RemoteState {
        match read {
            Read::Bytes(bytes) if bytes@.len() > 0 => RemoteState {
                codec: self.codec.feed(bytes@).codec,
                ..self
            },
            Read::Interrupted => self,
            _ => RemoteState { closed: true, ..self },
        }
    }

    /// What goes back to the server for a read.
    pub open spec fn reply(self, read: Read) -> Seq<u8> {
        match read {
            Read::Bytes(bytes) => self.codec.feed(bytes@).replies,
            _ => Seq::empty(),
        }
    }

    /// What a read brings for the terminal.
    pub open spec fn output(self, read: Read) -> Seq<u8> {
        match read {
            Read::Bytes(bytes) => self.codec.feed(bytes@).data,
            _ => Seq::empty(),
        }
    }
}

impl TelnetSession {
    /// A session on a server, and what to send it before anything is read.
    pub fn connect(address: &str, port: u16, cols: u16, rows: u16) -> (opened: (
        TelnetSession,
        Vec<u8>,
    ))
        ensures
            opened.0@ == RemoteState::opened(address@, port, cols, rows),
            opened.1@ == opening(),
            opened.0@.codec.wf(),
    {
        let (cols, rows) = settled_size(cols, rows);
        let mut codec = Codec::default();
        codec.set_size(cols, rows);
        let greeting = codec.greeting();
        (
            TelnetSession { codec, cols, rows, closed: false, endpoint: endpoint(address, port) },
            greeting,
        )
    }

    /// Takes in a read: what goes back, what the terminal gets, and whether to
    /// read on. A chunk that was pure protocol is not silence, but telling the
    /// UI of it would only wake it for nothing.
    pub fn heard(&mut self, read: Read) -> (reaction: Reaction)
        requires
            old(self)@.codec.wf(),
        ensures
            final(self)@ == old(self)@.heard(read),
            final(self)@.codec.wf(),
            reaction.reply@ == old(self)@.reply(read),
            reaction.again == !is_last(read),
            match reaction.event {
                Some(SessionEvent::Output(chunk)) => chunk@ == old(self)@.output(read)
                    && chunk@.len() > 0,
                Some(SessionEvent::Closed) => is_last(read),
                None => !is_last(read) && old(self)@.output(read).len() == 0,
            },
    {
        match read {
            Read::Bytes(bytes) => if bytes.len() == 0 {
                self.closed = true;
                assert(old(self)@.codec.feed(bytes@).replies.len() == 0);
                closing()
            } else {
                let decoded = self.codec.feed(bytes.as_slice());
                let event = if decoded.data.len() == 0 {
                    None
                } else {
                    Some(SessionEvent::Output(decoded.data))
                };
                Reaction { reply: decoded.replies, event, again: true }
            },
            Read::Interrupted => Reaction { reply: Vec::new(), event: None, again: true },
            Read::Failed => {
                self.closed = true;
                closing()
            },
        }
    }

    /// What to send for what is typed.
    pub fn write(&self, bytes: &[u8]) -> (out: Vec<u8>)
        ensures
            out@ == self@.codec.encode(bytes@),
    {
        self.codec.encode(bytes)
    }

    /// What to send for a new size. Nothing until the server has asked for
    /// sizes, which is not an error - it just means this server does not want
    /// them.
    pub fn resize(&mut self, cols: u16, rows: u16) -> (out: Vec<u8>)
        requires
            old(self)@.codec.wf(),
        ensures
            ({
                let size = (at_least(cols), at_least(rows));
                if size == (old(self).cols, old(self).rows) {
                    final(self)@ == old(self)@ && out@ == Seq::<u8>::empty()
                } else {
                    &&& final(self)@ == (RemoteState {
                        codec: CodecState { size, ..old(self)@.codec },
                        cols: size.0,
                        rows: size.1,
                        ..old(self)@
                    })
                    &&& out@ == final(self)@.codec.naws_report()
                }
            }),
            final(self)@.codec.wf(),
    {
        match size_change((self.cols, self.rows), cols, rows) {
            Some((cols, rows)) => {
                self.cols = cols;
                self.rows = rows;
                self.codec.set_size(cols, rows)
            },
            None => Vec::new(),
        }
    }

    pub fn size(&self) -> (size: (u16, u16))
        ensures
            size == (self.cols, self.rows),
    {
        (self.cols, self.rows)
    }

    pub fn is_alive(&self) -> (yes: bool)
        ensures
            yes == !self.closed,
    {
        !self.closed
    }

    /// What asks the session to end cleanly.
    pub fn request_halt(&self) -> (out: Vec<u8>)
        ensures
            out@ == self@.codec.encode(encode_utf8(HALT@).push(0x0d)),
    {
        self.write(line_bytes(HALT).as_slice())
    }

    /// Closing the socket is what ends the session, and IRIS reaps its own job.
    pub fn kill(&mut self)
        ensures
            final(self)@ == (RemoteState { closed: true, ..old(self)@ }),
    {
        self.closed = true;
    }
}

// ---- laws ---------------------------------------------------------------

/// However a stream is cut into two reads, the terminal gets the same bytes and
/// the server the same replies.
pub proof fn reads_may_be_cut_anywhere(
    session: RemoteState,
    whole: Vec<u8>,
    first: Vec<u8>,
    then: Vec<u8>,
)
    requires
        whole@ == first@ + then@,
        first@.len() > 0,
        then@.len() > 0,
    ensures
        ({
            let middle = session.heard(Read::Bytes(first));
            &&& middle.heard(Read::Bytes(then)) == session.heard(Read::Bytes(whole))
            &&& session.output(Read::Bytes(first)) + middle.output(Read::Bytes(then))
                == session.output(Read::Bytes(whole))
            &&& session.reply(Read::Bytes(first)) + middle.reply(Read::Bytes(then))
                == session.reply(Read::Bytes(whole))
        }),
{
    chunks_make_no_difference(session.codec, first@, then@);
}

} // verus!
