//! The Telnet option layer.
//!
//! IRIS runs a real Telnet server, not a raw socket, so the option protocol has
//! to be spoken. [`Codec`] is that layer and nothing more: it answers what it
//! must, refuses what it does not implement, and hands the terminal a clean
//! byte stream.

use vstd::prelude::*;

verus! {

// ---- the protocol -------------------------------------------------------

pub const IAC: u8 = 255;

pub const SE: u8 = 240;

pub const SB: u8 = 250;

pub const WILL: u8 = 251;

pub const WONT: u8 = 252;

pub const DO: u8 = 253;

pub const DONT: u8 = 254;

pub const OPT_BINARY: u8 = 0;

pub const OPT_ECHO: u8 = 1;

pub const OPT_SGA: u8 = 3;

pub const OPT_TTYPE: u8 = 24;

pub const OPT_NAWS: u8 = 31;

/// Sub-negotiation command: the server asking for the terminal type.
pub const TTYPE_SEND: u8 = 1;

/// Sub-negotiation command: the answer.
pub const TTYPE_IS: u8 = 0;

/// The most of a sub-negotiation that is kept.
pub const SB_LIMIT: usize = 64;

/// What the server is told the terminal is: `vt100`. Claiming more would invite
/// mouse and alt-screen sequences that the grid does not model.
pub open spec fn terminal_type() -> Seq<u8> {
    seq![0x76u8, 0x74u8, 0x31u8, 0x30u8, 0x30u8]
}

/// Options that are turned on when asked.
///
/// `BINARY` and `SGA` keep the stream 8-bit clean and character-at-a-time,
/// which is what an interactive terminal needs; `TTYPE` and `NAWS` are how the
/// far side learns what it is talking to and how big it is. Everything else is
/// refused: a refusal ends the exchange where a silence would leave the server
/// waiting.
pub open spec fn supported(option: u8) -> bool {
    option == OPT_BINARY || option == OPT_SGA || option == OPT_TTYPE || option == OPT_NAWS
}

fn is_supported(option: u8) -> (yes: bool)
    ensures
        yes == supported(option),
{
    option == OPT_BINARY || option == OPT_SGA || option == OPT_TTYPE || option == OPT_NAWS
}

/// Where in the protocol the incoming stream stands.
#[derive(Clone, Copy, PartialEq, Eq, Structural)]
pub enum State {
    Data,
    Iac,
    /// After IAC WILL/WONT/DO/DONT, holding which one.
    Negotiating(u8),
    /// Inside IAC SB ... IAC SE.
    Subnegotiation,
    /// An IAC inside a sub-negotiation, which may be the closing IAC SE.
    SubnegotiationIac,
}

/// The Telnet option layer: strips the protocol out of the incoming stream,
/// produces the replies it owes, and escapes outgoing data.
pub struct Codec {
    pub state: State,
    /// Bytes of the sub-negotiation currently being collected, option first.
    pub sb: Vec<u8>,
    /// Whether the server agreed to 8-bit data in our direction. Until it does,
    /// NVT rules apply and a bare CR has to be sent as CR NUL.
    pub binary_out: bool,
    /// Whether the server asked for window sizes. Sending them unasked is a
    /// protocol error, so a resize is silent until this is set.
    pub naws: bool,
    /// Set when the previous data byte was CR, so the NUL that NVT requires
    /// after it can be dropped rather than printed into the grid.
    pub after_cr: bool,
    /// Last size to advertise, so agreeing to NAWS mid-session still reports
    /// the real window rather than waiting for a resize.
    pub size: (u16, u16),
    /// Options the server has been told are on here, and options it has been
    /// told to turn on, indexed by option code.
    ///
    /// A negotiation that would not change anything goes unanswered:
    /// acknowledging a state already held is how two well-behaved
    /// implementations talk past each other forever.
    pub us: [bool; 256],
    pub them: [bool; 256],
}

/// A [`Codec`] as a mathematical value.
#[verifier::ext_equal]
pub struct CodecState {
    pub state: State,
    pub sb: Seq<u8>,
    pub binary_out: bool,
    pub naws: bool,
    pub after_cr: bool,
    pub size: (u16, u16),
    pub us: Seq<bool>,
    pub them: Seq<bool>,
}

impl View for Codec {
    type V = CodecState;

    open spec fn view(&self) -> CodecState {
        CodecState {
            state: self.state,
            sb: self.sb@,
            binary_out: self.binary_out,
            naws: self.naws,
            after_cr: self.after_cr,
            size: self.size,
            us: self.us@,
            them: self.them@,
        }
    }
}

impl Default for Codec {
    fn default() -> (codec: Self)
        ensures
            codec@ == CodecState::fresh(),
            codec@.wf(),
    {
        let codec = Codec {
            state: State::Data,
            sb: Vec::new(),
            binary_out: false,
            naws: false,
            after_cr: false,
            size: (80, 24),
            us: [false; 256],
            them: [false; 256],
        };
        assert(codec@ =~= CodecState::fresh());
        codec
    }
}

/// What [`Codec::feed`] pulled out of one chunk from the socket.
pub struct Decoded {
    /// Terminal data, protocol removed. Goes to the parser.
    pub data: Vec<u8>,
    /// Protocol bytes owed back to the server. Must be written before the next
    /// chunk is processed, or the far side sits waiting for an answer.
    pub replies: Vec<u8>,
}

impl Default for Decoded {
    fn default() -> (decoded: Self)
        ensures
            decoded.data@ == Seq::<u8>::empty(),
            decoded.replies@ == Seq::<u8>::empty(),
    {
        Decoded { data: Vec::new(), replies: Vec::new() }
    }
}

/// A codec and what came out of it on the way there.
#[verifier::ext_equal]
pub struct Fed {
    pub codec: CodecState,
    pub data: Seq<u8>,
    pub replies: Seq<u8>,
}

/// A byte, doubled if it would start a command.
pub open spec fn escaped(byte: u8) -> Seq<u8> {
    if byte == IAC {
        seq![IAC, IAC]
    } else {
        seq![byte]
    }
}

impl CodecState {
    /// One entry per option, and no more of a sub-negotiation than is kept.
    pub open spec fn wf(self) -> bool {
        &&& self.us.len() == 256
        &&& self.them.len() == 256
        &&& self.sb.len() <= SB_LIMIT
    }

    /// Before anything was said.
    pub open spec fn fresh() -> CodecState {
        CodecState {
            state: State::Data,
            sb: Seq::empty(),
            binary_out: false,
            naws: false,
            after_cr: false,
            size: (80, 24),
            us: Seq::new(256, |i: int| false),
            them: Seq::new(256, |i: int| false),
        }
    }

    /// The sub-negotiation that reports the window size, once sizes were asked
    /// for. Each byte of the size is data, so a 255 in it is doubled.
    pub open spec fn naws_report(self) -> Seq<u8> {
        if self.naws {
            let (cols, rows) = self.size;
            seq![IAC, SB, OPT_NAWS] + escaped((cols / 256) as u8) + escaped((cols % 256) as u8)
                + escaped((rows / 256) as u8) + escaped((rows % 256) as u8) + seq![IAC, SE]
        } else {
            Seq::empty()
        }
    }

    /// An option request answered.
    pub open spec fn negotiate(self, verb: u8, option: u8) -> Fed {
        let i = option as int;
        if verb == DO && supported(option) {
            let next = CodecState {
                us: self.us.update(i, true),
                binary_out: self.binary_out || option == OPT_BINARY,
                naws: self.naws || option == OPT_NAWS,
                ..self
            };
            Fed {
                codec: next,
                data: Seq::empty(),
                replies: (if self.us[i] {
                    Seq::empty()
                } else {
                    seq![IAC, WILL, option]
                }) + (if option == OPT_NAWS {
                    next.naws_report()
                } else {
                    Seq::empty()
                }),
            }
        } else if verb == DO {
            Fed {
                codec: CodecState { us: self.us.update(i, false), ..self },
                data: Seq::empty(),
                replies: seq![IAC, WONT, option],
            }
        } else if verb == DONT {
            Fed {
                codec: CodecState {
                    us: self.us.update(i, false),
                    binary_out: self.binary_out && option != OPT_BINARY,
                    naws: self.naws && option != OPT_NAWS,
                    ..self
                },
                data: Seq::empty(),
                replies: if self.us[i] {
                    seq![IAC, WONT, option]
                } else {
                    Seq::empty()
                },
            }
        } else if verb == WILL && (supported(option) || option == OPT_ECHO) {
            Fed {
                codec: CodecState { them: self.them.update(i, true), ..self },
                data: Seq::empty(),
                replies: if self.them[i] {
                    Seq::empty()
                } else {
                    seq![IAC, DO, option]
                },
            }
        } else if verb == WILL {
            Fed {
                codec: CodecState { them: self.them.update(i, false), ..self },
                data: Seq::empty(),
                replies: seq![IAC, DONT, option],
            }
        } else if verb == WONT && self.them[i] {
            Fed {
                codec: CodecState { them: self.them.update(i, false), ..self },
                data: Seq::empty(),
                replies: seq![IAC, DONT, option],
            }
        } else {
            Fed { codec: self, data: Seq::empty(), replies: Seq::empty() }
        }
    }

    /// One byte of data, with the NUL that pads a lone CR left out.
    pub open spec fn data_byte(self, byte: u8) -> Fed {
        if self.after_cr && byte == 0 {
            Fed {
                codec: CodecState { state: State::Data, after_cr: false, ..self },
                data: Seq::empty(),
                replies: Seq::empty(),
            }
        } else {
            Fed {
                codec: CodecState { state: State::Data, after_cr: byte == 13, ..self },
                data: seq![byte],
                replies: Seq::empty(),
            }
        }
    }

    /// One byte of a sub-negotiation, kept unless there is no room for it.
    pub open spec fn collect(self, byte: u8) -> CodecState {
        CodecState {
            state: State::Subnegotiation,
            sb: if self.sb.len() < SB_LIMIT {
                self.sb.push(byte)
            } else {
                self.sb
            },
            ..self
        }
    }

    /// The answer to a finished sub-negotiation. The only one that gets any is
    /// "send your terminal type".
    pub open spec fn type_reply(self) -> Seq<u8> {
        if self.sb.len() > 1 && self.sb[0] == OPT_TTYPE && self.sb[1] == TTYPE_SEND {
            seq![IAC, SB, OPT_TTYPE, TTYPE_IS] + terminal_type() + seq![IAC, SE]
        } else {
            Seq::empty()
        }
    }

    /// Nothing out, only a move to another state.
    pub open spec fn to(self, state: State) -> Fed {
        Fed {
            codec: CodecState { state, ..self },
            data: Seq::empty(),
            replies: Seq::empty(),
        }
    }

    /// One byte off the wire.
    pub open spec fn step(self, byte: u8) -> Fed {
        match self.state {
            State::Data => if byte == IAC {
                self.to(State::Iac)
            } else {
                self.data_byte(byte)
            },
            State::Iac => if byte == IAC {
                self.data_byte(IAC)
            } else if byte == WILL || byte == WONT || byte == DO || byte == DONT {
                self.to(State::Negotiating(byte))
            } else if byte == SB {
                CodecState { sb: Seq::empty(), ..self }.to(State::Subnegotiation)
            } else {
                self.to(State::Data)
            },
            State::Negotiating(verb) => CodecState { state: State::Data, ..self }.negotiate(
                verb,
                byte,
            ),
            State::Subnegotiation => if byte == IAC {
                self.to(State::SubnegotiationIac)
            } else {
                self.collect(byte).to(State::Subnegotiation)
            },
            State::SubnegotiationIac => if byte == IAC {
                self.collect(IAC).to(State::Subnegotiation)
            } else {
                Fed {
                    codec: CodecState { state: State::Data, sb: Seq::empty(), ..self },
                    data: Seq::empty(),
                    replies: if byte == SE {
                        self.type_reply()
                    } else {
                        Seq::empty()
                    },
                }
            },
        }
    }

    /// A chunk off the wire, byte by byte.
    pub open spec fn feed(self, incoming: Seq<u8>) -> Fed
        decreases incoming.len(),
    {
        if incoming.len() == 0 {
            Fed { codec: self, data: Seq::empty(), replies: Seq::empty() }
        } else {
            let before = self.feed(incoming.drop_last());
            let last = before.codec.step(incoming.last());
            Fed {
                codec: last.codec,
                data: before.data + last.data,
                replies: before.replies + last.replies,
            }
        }
    }

    /// What a byte becomes on the wire when `next` follows it. A CR that does
    /// not begin a CR LF is followed by NUL until the stream is binary.
    pub open spec fn encode_byte(self, byte: u8, next: Option<u8>) -> Seq<u8> {
        if byte == 13 && !self.binary_out && next != Some(10u8) {
            seq![13u8, 0u8]
        } else {
            escaped(byte)
        }
    }

    /// Terminal data escaped for the wire.
    pub open spec fn encode(self, data: Seq<u8>) -> Seq<u8>
        decreases data.len(),
    {
        if data.len() == 0 {
            Seq::empty()
        } else {
            self.encode_byte(
                data[0],
                if data.len() > 1 {
                    Some(data[1])
                } else {
                    None
                },
            ) + self.encode(data.skip(1))
        }
    }
}

/// Appends three bytes.
fn push3(out: &mut Vec<u8>, a: u8, b: u8, c: u8)
    ensures
        final(out)@ == old(out)@ + seq![a, b, c],
{
    out.push(a);
    out.push(b);
    out.push(c);
    assert(out@ =~= old(out)@ + seq![a, b, c]);
}

/// Appends a byte of data, doubled if it would start a command.
fn push_escaped(out: &mut Vec<u8>, byte: u8)
    ensures
        final(out)@ == old(out)@ + escaped(byte),
{
    out.push(byte);
    if byte == IAC {
        out.push(IAC);
    }
    assert(out@ =~= old(out)@ + escaped(byte));
}

impl Codec {
    /// The opening offer, sent before anything is read.
    ///
    /// Announcing rather than waiting: a server that never asks for the
    /// terminal type would otherwise fall back to dumb-terminal behaviour. And
    /// the far side echoes what is typed, so the terminal must not do it a
    /// second time.
    pub fn greeting(&mut self) -> (out: Vec<u8>)
        requires
            old(self)@.wf(),
        ensures
            out@ == seq![
                IAC, WILL, OPT_TTYPE, IAC, WILL, OPT_NAWS, IAC, DO, OPT_SGA, IAC, DO, OPT_ECHO,
            ],
            final(self)@ == (CodecState {
                us: old(self)@.us.update(OPT_TTYPE as int, true).update(OPT_NAWS as int, true),
                them: old(self)@.them.update(OPT_SGA as int, true).update(OPT_ECHO as int, true),
                ..old(self)@
            }),
            final(self)@.wf(),
    {
        let mut out: Vec<u8> = Vec::new();
        self.us[OPT_TTYPE as usize] = true;
        push3(&mut out, IAC, WILL, OPT_TTYPE);
        self.us[OPT_NAWS as usize] = true;
        push3(&mut out, IAC, WILL, OPT_NAWS);
        self.them[OPT_SGA as usize] = true;
        push3(&mut out, IAC, DO, OPT_SGA);
        self.them[OPT_ECHO as usize] = true;
        push3(&mut out, IAC, DO, OPT_ECHO);
        assert(out@ =~= seq![
            IAC, WILL, OPT_TTYPE, IAC, WILL, OPT_NAWS, IAC, DO, OPT_SGA, IAC, DO, OPT_ECHO,
        ]);
        out
    }

    /// Remembers the window size and, once the server has asked for sizes,
    /// produces the sub-negotiation reporting it.
    pub fn set_size(&mut self, cols: u16, rows: u16) -> (out: Vec<u8>)
        ensures
            final(self)@ == (CodecState { size: (cols, rows), ..old(self)@ }),
            out@ == final(self)@.naws_report(),
    {
        self.size = (cols, rows);
        self.naws_report()
    }

    fn naws_report(&self) -> (out: Vec<u8>)
        ensures
            out@ == self@.naws_report(),
    {
        let mut out: Vec<u8> = Vec::new();
        if self.naws {
            let (cols, rows) = self.size;
            push3(&mut out, IAC, SB, OPT_NAWS);
            push_escaped(&mut out, (cols / 256) as u8);
            push_escaped(&mut out, (cols % 256) as u8);
            push_escaped(&mut out, (rows / 256) as u8);
            push_escaped(&mut out, (rows % 256) as u8);
            out.push(IAC);
            out.push(SE);
        }
        assert(out@ =~= self@.naws_report());
        out
    }

    /// Escapes terminal data for the wire.
    pub fn encode(&self, data: &[u8]) -> (out: Vec<u8>)
        ensures
            out@ == self@.encode(data@),
    {
        let mut out: Vec<u8> = Vec::with_capacity(data.len());
        let mut i: usize = 0;
        assert(data@.skip(0) =~= data@);
        while i < data.len()
            invariant
                i <= data@.len(),
                out@ + self@.encode(data@.skip(i as int)) =~= self@.encode(data@),
            decreases data.len() - i,
        {
            let byte = data[i];
            let ghost before = out@;
            let ghost rest = data@.skip(i as int);
            assert(rest.skip(1) =~= data@.skip(i + 1));
            assert(rest[0] == byte);
            // IRIS's Enter is a bare CR, so without the NUL every line ends
            // ambiguously.
            if byte == 13 && !self.binary_out && !(i + 1 < data.len() && data[i + 1] == 10) {
                out.push(13);
                out.push(0);
                assert(out@ =~= before + seq![13u8, 0u8]);
            } else {
                push_escaped(&mut out, byte);
            }
            i += 1;
        }
        out
    }

    /// Runs one chunk from the socket through the protocol.
    pub fn feed(&mut self, incoming: &[u8]) -> (out: Decoded)
        requires
            old(self)@.wf(),
        ensures
            final(self)@ == old(self)@.feed(incoming@).codec,
            out.data@ == old(self)@.feed(incoming@).data,
            out.replies@ == old(self)@.feed(incoming@).replies,
            final(self)@.wf(),
    {
        let mut data: Vec<u8> = Vec::with_capacity(incoming.len());
        let mut replies: Vec<u8> = Vec::new();
        let mut i: usize = 0;
        while i < incoming.len()
            invariant
                i <= incoming@.len(),
                self@.wf(),
                ({
                    let fed = old(self)@.feed(incoming@.take(i as int));
                    &&& self@ == fed.codec
                    &&& data@ =~= fed.data
                    &&& replies@ =~= fed.replies
                }),
            decreases incoming.len() - i,
        {
            assert(incoming@.take(i + 1).drop_last() =~= incoming@.take(i as int));
            self.step(incoming[i], &mut data, &mut replies);
            i += 1;
        }
        assert(incoming@.take(i as int) =~= incoming@);
        Decoded { data, replies }
    }

    fn step(&mut self, byte: u8, data: &mut Vec<u8>, replies: &mut Vec<u8>)
        requires
            old(self)@.wf(),
        ensures
            final(self)@ == old(self)@.step(byte).codec,
            final(data)@ == old(data)@ + old(self)@.step(byte).data,
            final(replies)@ == old(replies)@ + old(self)@.step(byte).replies,
            final(self)@.wf(),
    {
        match self.state {
            State::Data => {
                if byte == IAC {
                    self.state = State::Iac;
                } else {
                    self.push_data(byte, data);
                }
            },
            State::Iac => {
                // A doubled IAC is one literal 255 of data. Every command that
                // is not about options asks for nothing: there is nothing a
                // terminal owes in reply to an Are-You-There or a Data-Mark.
                if byte == IAC {
                    self.push_data(IAC, data);
                } else if byte == WILL || byte == WONT || byte == DO || byte == DONT {
                    self.state = State::Negotiating(byte);
                } else if byte == SB {
                    self.sb.clear();
                    self.state = State::Subnegotiation;
                } else {
                    self.state = State::Data;
                }
            },
            State::Negotiating(verb) => {
                self.state = State::Data;
                self.negotiate(verb, byte, replies);
            },
            State::Subnegotiation => {
                if byte == IAC {
                    self.state = State::SubnegotiationIac;
                } else {
                    self.collect_sb(byte);
                }
            },
            State::SubnegotiationIac => {
                if byte == IAC {
                    // Escaped 255 inside the payload.
                    self.collect_sb(IAC);
                } else {
                    // The end, or a stray command, which abandons the
                    // sub-negotiation rather than accumulating the rest of the
                    // session into it.
                    if byte == SE {
                        self.finish_sb(replies);
                    }
                    self.sb.clear();
                    self.state = State::Data;
                }
            },
        }
        assert(self@ =~= old(self)@.step(byte).codec);
        assert(data@ =~= old(data)@ + old(self)@.step(byte).data);
        assert(replies@ =~= old(replies)@ + old(self)@.step(byte).replies);
    }

    /// One byte of terminal data, with the NVT CR NUL rule applied.
    ///
    /// NVT sends a lone CR as CR NUL. The NUL is padding, and printing it would
    /// advance the cursor over a cell that holds nothing.
    fn push_data(&mut self, byte: u8, data: &mut Vec<u8>)
        ensures
            final(self)@ == old(self)@.data_byte(byte).codec,
            final(data)@ == old(data)@ + old(self)@.data_byte(byte).data,
    {
        self.state = State::Data;
        if self.after_cr && byte == 0 {
            self.after_cr = false;
        } else {
            self.after_cr = byte == 13;
            data.push(byte);
        }
        assert(data@ =~= old(data)@ + old(self)@.data_byte(byte).data);
    }

    /// One byte of a sub-negotiation. A server that opens `IAC SB` and never
    /// closes it would otherwise grow the payload without limit.
    fn collect_sb(&mut self, byte: u8)
        ensures
            final(self)@ == old(self)@.collect(byte),
    {
        if self.sb.len() < SB_LIMIT {
            self.sb.push(byte);
        }
        self.state = State::Subnegotiation;
    }

    fn negotiate(&mut self, verb: u8, option: u8, replies: &mut Vec<u8>)
        requires
            old(self)@.wf(),
        ensures
            final(self)@ == old(self)@.negotiate(verb, option).codec,
            final(replies)@ == old(replies)@ + old(self)@.negotiate(verb, option).replies,
    {
        let index = option as usize;
        if verb == DO {
            // The server wants *us* to enable an option.
            if is_supported(option) {
                // An acknowledgement is only sent when it changes something.
                if !self.us[index] {
                    self.us[index] = true;
                    push3(replies, IAC, WILL, option);
                }
                // The side effects follow the server's *request*, not the
                // answer. A `DO NAWS` for something the greeting already
                // offered still means "and now tell me the size".
                if option == OPT_BINARY {
                    self.binary_out = true;
                } else if option == OPT_NAWS {
                    self.naws = true;
                    let mut report = self.naws_report();
                    replies.append(&mut report);
                }
            } else {
                // A refusal is idempotent and always owed.
                self.us[index] = false;
                push3(replies, IAC, WONT, option);
            }
        } else if verb == DONT {
            if option == OPT_BINARY {
                self.binary_out = false;
            } else if option == OPT_NAWS {
                self.naws = false;
            }
            if self.us[index] {
                self.us[index] = false;
                push3(replies, IAC, WONT, option);
            }
        } else if verb == WILL {
            // The server offers to enable an option on its side. ECHO is the
            // one actively wanted: the far side echoing what is typed is why
            // the terminal must not echo it too.
            if is_supported(option) || option == OPT_ECHO {
                if !self.them[index] {
                    self.them[index] = true;
                    push3(replies, IAC, DO, option);
                }
            } else {
                self.them[index] = false;
                push3(replies, IAC, DONT, option);
            }
        } else if verb == WONT && self.them[index] {
            // The server withdraws an option. Confirmed only if it was on:
            // answering a withdrawal of something never enabled is the other
            // half of the loop rule.
            self.them[index] = false;
            push3(replies, IAC, DONT, option);
        }
        assert(self@ =~= old(self)@.negotiate(verb, option).codec);
        assert(replies@ =~= old(replies)@ + old(self)@.negotiate(verb, option).replies);
    }

    /// Answers "send your terminal type".
    fn finish_sb(&self, replies: &mut Vec<u8>)
        ensures
            final(replies)@ == old(replies)@ + self@.type_reply(),
    {
        if self.sb.len() > 1 && self.sb[0] == OPT_TTYPE && self.sb[1] == TTYPE_SEND {
            push3(replies, IAC, SB, OPT_TTYPE);
            push3(replies, TTYPE_IS, 0x76, 0x74);
            push3(replies, 0x31, 0x30, 0x30);
            replies.push(IAC);
            replies.push(SE);
        }
        assert(replies@ =~= old(replies)@ + self@.type_reply());
    }
}

// ---- laws ---------------------------------------------------------------

/// However the stream is cut into chunks, the same comes out of it.
pub proof fn chunks_make_no_difference(codec: CodecState, first: Seq<u8>, then: Seq<u8>)
    ensures
        ({
            let one = codec.feed(first);
            let two = one.codec.feed(then);
            codec.feed(first + then) == (Fed {
                codec: two.codec,
                data: one.data + two.data,
                replies: one.replies + two.replies,
            })
        }),
    decreases then.len(),
{
    let one = codec.feed(first);
    let two = one.codec.feed(then);
    if then.len() == 0 {
        assert(first + then =~= first);
        assert(one.data + two.data =~= one.data);
        assert(one.replies + two.replies =~= one.replies);
    } else {
        chunks_make_no_difference(codec, first, then.drop_last());
        assert((first + then).drop_last() =~= first + then.drop_last());
        assert(codec.feed(first + then).data =~= one.data + two.data);
        assert(codec.feed(first + then).replies =~= one.replies + two.replies);
    }
}

/// What one side encodes by the NVT rules the other decodes to the same bytes,
/// whatever they are, with nothing owed in reply and nothing left over.
pub proof fn decoding_undoes_encoding(sender: CodecState, receiver: CodecState, data: Seq<u8>)
    requires
        !sender.binary_out,
        receiver.state == State::Data,
        !receiver.after_cr,
    ensures
        receiver.feed(sender.encode(data)) == (Fed {
            codec: receiver,
            data,
            replies: Seq::empty(),
        }),
    decreases data.len(),
{
    let next = if data.len() > 1 {
        Some(data[1])
    } else {
        None
    };
    if data.len() > 0 {
        let head = sender.encode_byte(data[0], next);
        let tail = sender.encode(data.skip(1));
        chunks_make_no_difference(receiver, head, tail);
        feed_one_or_two(receiver, head);
        if data[0] == 13 && next == Some(10u8) {
            // CR LF: the line feed goes out as it is and ends the pair.
            let rest = data.skip(2);
            assert(data.skip(1).skip(1) =~= rest);
            assert(data.skip(1)[0] == 10);
            decoding_undoes_encoding(sender, receiver, rest);
            let line_feed = seq![10u8];
            assert(tail =~= line_feed + sender.encode(rest));
            let after = receiver.feed(head).codec;
            chunks_make_no_difference(after, line_feed, sender.encode(rest));
            feed_one_or_two(after, line_feed);
            assert(after.feed(line_feed).codec =~= receiver);
            assert(receiver.feed(sender.encode(data)).data =~= data);
        } else {
            decoding_undoes_encoding(sender, receiver, data.skip(1));
            assert(receiver.feed(head).codec =~= receiver);
            assert(receiver.feed(head).data =~= seq![data[0]]);
            assert(receiver.feed(sender.encode(data)).data =~= data);
        }
        assert(receiver.feed(sender.encode(data)).replies =~= Seq::empty());
    } else {
        assert(data =~= Seq::empty());
    }
}

/// What one side encodes in binary the other decodes to the same bytes, as long
/// as no NUL follows a CR: that one is taken for padding, and is the only one
/// that is.
pub proof fn decoding_undoes_binary_encoding(
    sender: CodecState,
    receiver: CodecState,
    data: Seq<u8>,
)
    requires
        sender.binary_out,
        receiver.state == State::Data,
        data.len() > 0 && receiver.after_cr ==> data[0] != 0,
        forall|i: int| 0 < i < data.len() && data[i - 1] == 13 ==> #[trigger] data[i] != 0,
    ensures
        receiver.feed(sender.encode(data)) == (Fed {
            codec: CodecState {
                after_cr: if data.len() > 0 {
                    data.last() == 13
                } else {
                    receiver.after_cr
                },
                ..receiver
            },
            data,
            replies: Seq::empty(),
        }),
    decreases data.len(),
{
    if data.len() > 0 {
        let head = escaped(data[0]);
        let rest = data.skip(1);
        chunks_make_no_difference(receiver, head, sender.encode(rest));
        feed_one_or_two(receiver, head);
        let next = receiver.feed(head).codec;
        assert(next =~= CodecState { after_cr: data[0] == 13, ..receiver });
        assert(receiver.feed(head).data =~= seq![data[0]]);
        assert forall|i: int| 0 < i < rest.len() && rest[i - 1] == 13 implies #[trigger] rest[i]
            != 0 by {
            assert(rest[i] == data[i + 1] && rest[i - 1] == data[i]);
        }
        if rest.len() > 0 && next.after_cr {
            assert(rest[0] == data[1]);
        }
        decoding_undoes_binary_encoding(sender, next, rest);
        assert(sender.encode(data) =~= head + sender.encode(rest));
        assert(receiver.feed(sender.encode(data)).data =~= data);
        assert(receiver.feed(sender.encode(data)).replies =~= Seq::empty());
        if rest.len() > 0 {
            assert(rest.last() == data.last());
        } else {
            assert(data.last() == data[0]);
        }
    } else {
        assert(data =~= Seq::empty());
    }
}

/// [`CodecState::feed`] spelled out for one byte and for two.
proof fn feed_one_or_two(codec: CodecState, bytes: Seq<u8>)
    requires
        1 <= bytes.len() <= 2,
    ensures
        bytes.len() == 1 ==> codec.feed(bytes) == codec.step(bytes[0]),
        bytes.len() == 2 ==> codec.feed(bytes) == ({
            let one = codec.step(bytes[0]);
            let two = one.codec.step(bytes[1]);
            Fed {
                codec: two.codec,
                data: one.data + two.data,
                replies: one.replies + two.replies,
            }
        }),
{
    reveal_with_fuel(CodecState::feed, 3);
    let one = codec.step(bytes[0]);
    assert(Seq::<u8>::empty() + one.data =~= one.data);
    assert(Seq::<u8>::empty() + one.replies =~= one.replies);
}

/// A request for a state already held goes unanswered, apart from the size that
/// a request for sizes always asks for.
pub proof fn a_settled_option_is_not_answered(codec: CodecState, option: u8)
    requires
        codec.wf(),
    ensures
        codec.us[option as int] && supported(option) && option != OPT_NAWS ==> codec.negotiate(
            DO,
            option,
        ).replies.len() == 0,
        codec.them[option as int] && (supported(option) || option == OPT_ECHO)
            ==> codec.negotiate(WILL, option).replies.len() == 0,
        !codec.us[option as int] ==> codec.negotiate(DONT, option).replies.len() == 0,
        !codec.them[option as int] ==> codec.negotiate(WONT, option).replies.len() == 0,
{
}

/// Asking twice gets one answer: the state that the first answer announced is
/// held when the second request comes.
pub proof fn a_repeated_request_is_answered_once(codec: CodecState, option: u8)
    requires
        codec.wf(),
        supported(option),
    ensures
        option != OPT_NAWS ==> codec.negotiate(DO, option).codec.negotiate(
            DO,
            option,
        ).replies.len() == 0,
        codec.negotiate(WILL, option).codec.negotiate(WILL, option).replies.len() == 0,
        codec.negotiate(DONT, option).codec.negotiate(DONT, option).replies.len() == 0,
        codec.negotiate(WONT, option).codec.negotiate(WONT, option).replies.len() == 0,
{
}

/// What is not implemented is refused, every time it is asked for.
pub proof fn a_refusal_is_always_sent(codec: CodecState, option: u8)
    requires
        codec.wf(),
        !supported(option),
    ensures
        codec.negotiate(DO, option).replies == seq![IAC, WONT, option],
        codec.negotiate(DO, option).codec.negotiate(DO, option).replies == seq![
            IAC, WONT, option,
        ],
        option != OPT_ECHO ==> codec.negotiate(WILL, option).replies == seq![IAC, DONT, option],
{
}

/// A sub-negotiation that is never closed takes up no more than its limit, and
/// the tables stay one entry per option, whatever comes in.
pub proof fn the_codec_stays_in_order(codec: CodecState, incoming: Seq<u8>)
    requires
        codec.wf(),
    ensures
        codec.feed(incoming).codec.wf(),
    decreases incoming.len(),
{
    if incoming.len() > 0 {
        the_codec_stays_in_order(codec, incoming.drop_last());
    }
}

/// What the greeting asked for is settled once the server agrees to it.
pub proof fn agreeing_to_the_greeting_settles_it(codec: CodecState)
    requires
        codec.wf(),
        codec.them[OPT_SGA as int],
        codec.them[OPT_ECHO as int],
        codec.us[OPT_TTYPE as int],
    ensures
        codec.negotiate(WILL, OPT_SGA).replies.len() == 0,
        codec.negotiate(WILL, OPT_ECHO).replies.len() == 0,
        codec.negotiate(DO, OPT_TTYPE).replies.len() == 0,
{
}

} // verus!
