//! The Telnet exchange, with the bytes written out.

use vstd::prelude::*;

use super::telnet::{CodecState, Fed, State};

verus! {

// ---- the window size ----------------------------------------------------

/// What a payload says once its doubled 255s are undone.
pub open spec fn undoubled(s: Seq<u8>) -> Seq<u8>
    decreases s.len(),
{
    if s.len() == 0 {
        Seq::empty()
    } else if s.len() > 1 && s[0] == 255 && s[1] == 255 {
        seq![255u8] + undoubled(s.skip(2))
    } else {
        seq![s[0]] + undoubled(s.skip(1))
    }
}

proof fn undoubling(byte: u8, rest: Seq<u8>)
    ensures
        byte != 255 ==> undoubled(seq![byte] + rest) == seq![byte] + undoubled(rest),
        byte == 255 ==> undoubled(seq![255u8, 255u8] + rest) == seq![byte] + undoubled(rest),
{
    assert((seq![byte] + rest).skip(1) =~= rest);
    assert((seq![255u8, 255u8] + rest).skip(2) =~= rest);
}

spec fn on_the_wire(byte: u8) -> Seq<u8> {
    if byte == 255 {
        seq![255u8, 255u8]
    } else {
        seq![byte]
    }
}

proof fn undoubling_on_the_wire(byte: u8, rest: Seq<u8>)
    ensures
        undoubled(on_the_wire(byte) + rest) == seq![byte] + undoubled(rest),
{
    undoubling(byte, rest);
}

/// The size of the window is reported in four bytes, two for the columns and two
/// for the rows, the higher one first, between the marks of the option; and not
/// at all before sizes were asked for.
pub proof fn the_report_is_the_size(codec: CodecState, cols: u16, rows: u16)
    ensures
        ({
            let report = CodecState { size: (cols, rows), ..codec }.naws_report();
            let n = report.len() as int;
            let payload = undoubled(report.subrange(3, n - 2));
            &&& !codec.naws ==> n == 0
            &&& codec.naws ==> {
                &&& n >= 9
                &&& report.take(3) == seq![255u8, 250u8, 31u8]
                &&& report.skip(n - 2) == seq![255u8, 240u8]
                &&& payload.len() == 4
                &&& payload[0] * 256 + payload[1] == cols
                &&& payload[2] * 256 + payload[3] == rows
            }
        }),
{
    let report = CodecState { size: (cols, rows), ..codec }.naws_report();
    let n = report.len() as int;
    if codec.naws {
        let (a, b) = ((cols / 256) as u8, (cols % 256) as u8);
        let (c, d) = ((rows / 256) as u8, (rows % 256) as u8);
        let (wa, wb, wc, wd) = (on_the_wire(a), on_the_wire(b), on_the_wire(c), on_the_wire(d));
        let nothing = Seq::<u8>::empty();
        assert(report =~= seq![255u8, 250u8, 31u8] + (wa + (wb + (wc + (wd + nothing)))) + seq![
            255u8,
            240u8,
        ]);
        assert(report.take(3) =~= seq![255u8, 250u8, 31u8]);
        assert(report.skip(n - 2) =~= seq![255u8, 240u8]);
        assert(report.subrange(3, n - 2) =~= wa + (wb + (wc + (wd + nothing))));
        undoubling_on_the_wire(d, nothing);
        undoubling_on_the_wire(c, wd + nothing);
        undoubling_on_the_wire(b, wc + (wd + nothing));
        undoubling_on_the_wire(a, wb + (wc + (wd + nothing)));
        assert(undoubled(report.subrange(3, n - 2)) =~= seq![a, b, c, d]);
    }
}

// ---- options ------------------------------------------------------------

/// Feeding three bytes, spelled out.
proof fn three_bytes(codec: CodecState, a: u8, b: u8, c: u8)
    ensures
        ({
            let one = codec.step(a);
            let two = one.codec.step(b);
            let three = two.codec.step(c);
            codec.feed(seq![a, b, c]) == (Fed {
                codec: three.codec,
                data: one.data + two.data + three.data,
                replies: one.replies + two.replies + three.replies,
            })
        }),
{
    reveal_with_fuel(CodecState::feed, 4);
    let s = seq![a, b, c];
    assert(s.drop_last() =~= seq![a, b]);
    assert(seq![a, b].drop_last() =~= seq![a]);
    assert(seq![a].drop_last() =~= Seq::empty());
    let one = codec.step(a);
    assert(Seq::<u8>::empty() + one.data =~= one.data);
    assert(Seq::<u8>::empty() + one.replies =~= one.replies);
}

/// An option the server wants here (IAC DO) is agreed to once (IAC WILL) if it is
/// binary, no go-ahead, the terminal type or the window size, and anything else
/// is refused (IAC WONT). Binary data and the window size then hold.
pub proof fn what_the_server_wants_here(codec: CodecState, option: u8)
    requires
        codec.wf(),
        codec.state == State::Data,
    ensures
        ({
            let fed = codec.feed(seq![255u8, 253u8, option]);
            let able = option == 0 || option == 3 || option == 24 || option == 31;
            &&& fed.data.len() == 0
            &&& fed.codec.state == State::Data
            &&& !able ==> fed.replies == seq![255u8, 252u8, option]
            &&& able && option != 31 ==> fed.replies == if codec.us[option as int] {
                Seq::<u8>::empty()
            } else {
                seq![255u8, 251u8, option]
            }
            &&& option == 31 ==> fed.replies == (if codec.us[31] {
                Seq::<u8>::empty()
            } else {
                seq![255u8, 251u8, 31u8]
            }) + fed.codec.naws_report()
            &&& fed.codec.us[option as int] == able
            &&& fed.codec.naws == (codec.naws || option == 31)
            &&& fed.codec.binary_out == (codec.binary_out || option == 0)
            &&& fed.codec.size == codec.size && fed.codec.them == codec.them
            &&& forall|i: int| 0 <= i < 256 && i != option ==> #[trigger] fed.codec.us[i]
                == codec.us[i]
        }),
{
    three_bytes(codec, 255, 253, option);
    let fed = codec.feed(seq![255u8, 253u8, option]);
    let able = option == 0 || option == 3 || option == 24 || option == 31;
    if !able {
        assert(fed.replies =~= seq![255u8, 252u8, option]);
    } else if option == 31 {
        assert(fed.replies =~= (if codec.us[31] {
            Seq::<u8>::empty()
        } else {
            seq![255u8, 251u8, 31u8]
        }) + fed.codec.naws_report());
    } else if codec.us[option as int] {
        assert(fed.replies =~= Seq::<u8>::empty());
    } else {
        assert(fed.replies =~= seq![255u8, 251u8, option]);
    }
}

/// An option the server wants off here (IAC DONT) is off, and that is confirmed
/// if it was on (IAC WONT).
pub proof fn what_the_server_wants_off_here(codec: CodecState, option: u8)
    requires
        codec.wf(),
        codec.state == State::Data,
    ensures
        ({
            let fed = codec.feed(seq![255u8, 254u8, option]);
            &&& fed.data.len() == 0
            &&& fed.replies == if codec.us[option as int] {
                seq![255u8, 252u8, option]
            } else {
                Seq::<u8>::empty()
            }
            &&& !fed.codec.us[option as int]
            &&& fed.codec.naws == (codec.naws && option != 31)
            &&& fed.codec.binary_out == (codec.binary_out && option != 0)
        }),
{
    three_bytes(codec, 255, 254, option);
    let fed = codec.feed(seq![255u8, 254u8, option]);
    if codec.us[option as int] {
        assert(fed.replies =~= seq![255u8, 252u8, option]);
    } else {
        assert(fed.replies =~= Seq::<u8>::empty());
    }
}

/// An option the server offers (IAC WILL) is taken (IAC DO) if it is one of those
/// four or the echo, and turned down otherwise (IAC DONT); one it takes back
/// (IAC WONT) is confirmed if it was on (IAC DONT).
pub proof fn what_the_server_offers(codec: CodecState, option: u8)
    requires
        codec.wf(),
        codec.state == State::Data,
    ensures
        ({
            let fed = codec.feed(seq![255u8, 251u8, option]);
            let wanted = option == 0 || option == 1 || option == 3 || option == 24 || option == 31;
            &&& fed.data.len() == 0
            &&& !wanted ==> fed.replies == seq![255u8, 254u8, option]
            &&& wanted ==> fed.replies == if codec.them[option as int] {
                Seq::<u8>::empty()
            } else {
                seq![255u8, 253u8, option]
            }
            &&& fed.codec.them[option as int] == wanted
            &&& fed.codec.us == codec.us && fed.codec.naws == codec.naws && fed.codec.binary_out
                == codec.binary_out
        }),
        ({
            let fed = codec.feed(seq![255u8, 252u8, option]);
            &&& fed.data.len() == 0
            &&& fed.replies == if codec.them[option as int] {
                seq![255u8, 254u8, option]
            } else {
                Seq::<u8>::empty()
            }
            &&& !fed.codec.them[option as int]
        }),
{
    three_bytes(codec, 255, 251, option);
    three_bytes(codec, 255, 252, option);
    let fed = codec.feed(seq![255u8, 251u8, option]);
    let wanted = option == 0 || option == 1 || option == 3 || option == 24 || option == 31;
    if !wanted {
        assert(fed.replies =~= seq![255u8, 254u8, option]);
    } else if codec.them[option as int] {
        assert(fed.replies =~= Seq::<u8>::empty());
    } else {
        assert(fed.replies =~= seq![255u8, 253u8, option]);
    }
    let back = codec.feed(seq![255u8, 252u8, option]);
    if codec.them[option as int] {
        assert(back.replies =~= seq![255u8, 254u8, option]);
    } else {
        assert(back.replies =~= Seq::<u8>::empty());
    }
}

/// Asked for the terminal type, the codec says `vt100`.
pub proof fn the_terminal_type_is_told(codec: CodecState)
    requires
        codec.wf(),
        codec.state == State::Data,
    ensures
        ({
            let fed = codec.feed(seq![255u8, 250u8, 24u8, 1u8, 255u8, 240u8]);
            &&& fed.replies == seq![
                255u8, 250u8, 24u8, 0u8, 118u8, 116u8, 49u8, 48u8, 48u8, 255u8, 240u8,
            ]
            &&& fed.data.len() == 0
            &&& fed.codec.state == State::Data
        }),
{
    three_bytes(codec, 255, 250, 24);
    let mid = codec.feed(seq![255u8, 250u8, 24u8]);
    assert(mid.codec.sb =~= seq![24u8]);
    three_bytes(mid.codec, 1, 255, 240);
    super::telnet::chunks_make_no_difference(
        codec,
        seq![255u8, 250u8, 24u8],
        seq![1u8, 255u8, 240u8],
    );
    let all = seq![255u8, 250u8, 24u8, 1u8, 255u8, 240u8];
    assert(all =~= seq![255u8, 250u8, 24u8] + seq![1u8, 255u8, 240u8]);
    assert(codec.feed(all).replies =~= seq![
        255u8, 250u8, 24u8, 0u8, 118u8, 116u8, 49u8, 48u8, 48u8, 255u8, 240u8,
    ]);
}

// ---- data ---------------------------------------------------------------

/// Data that holds neither 255 nor a carriage return comes through byte for
/// byte, and goes out byte for byte.
pub proof fn ordinary_data_is_untouched(codec: CodecState, data: Seq<u8>)
    requires
        codec.state == State::Data,
        !codec.after_cr,
        forall|i: int| 0 <= i < data.len() ==> #[trigger] data[i] != 255 && data[i] != 13,
    ensures
        codec.feed(data).data == data,
        codec.feed(data).replies.len() == 0,
        codec.encode(data) == data,
{
    ordinary_data_comes_in(codec, data);
    ordinary_data_goes_out(codec, data);
}

proof fn ordinary_data_comes_in(codec: CodecState, data: Seq<u8>)
    requires
        codec.state == State::Data,
        !codec.after_cr,
        forall|i: int| 0 <= i < data.len() ==> #[trigger] data[i] != 255 && data[i] != 13,
    ensures
        codec.feed(data) == (Fed { codec, data, replies: Seq::empty() }),
    decreases data.len(),
{
    if data.len() == 0 {
        assert(data =~= Seq::empty());
    } else {
        let head = data.drop_last();
        assert forall|i: int| 0 <= i < head.len() implies #[trigger] head[i] != 255 && head[i]
            != 13 by {
            assert(head[i] == data[i]);
        }
        ordinary_data_comes_in(codec, head);
        assert(data[data.len() - 1] != 255);
        assert(codec.feed(data).codec =~= codec);
        assert(codec.feed(data).data =~= data);
        assert(codec.feed(data).replies =~= Seq::empty());
    }
}

proof fn ordinary_data_goes_out(codec: CodecState, data: Seq<u8>)
    requires
        forall|i: int| 0 <= i < data.len() ==> #[trigger] data[i] != 255 && data[i] != 13,
    ensures
        codec.encode(data) == data,
    decreases data.len(),
{
    if data.len() == 0 {
        assert(data =~= Seq::empty());
    } else {
        let rest = data.skip(1);
        assert forall|i: int| 0 <= i < rest.len() implies #[trigger] rest[i] != 255 && rest[i]
            != 13 by {
            assert(rest[i] == data[i + 1]);
        }
        ordinary_data_goes_out(codec, rest);
        assert(data[0] != 255);
        assert(codec.encode(data) =~= data);
    }
}

/// On its way out a 255 is doubled, a carriage return takes a NUL along unless a
/// line feed follows it or the stream is binary, and every other byte goes as it
/// is.
pub proof fn bytes_go_out_one_by_one(codec: CodecState, byte: u8, rest: Seq<u8>)
    ensures
        codec.encode(seq![byte] + rest) == (if byte == 255 {
            seq![255u8, 255u8]
        } else if byte == 13 && !codec.binary_out && (rest.len() == 0 || rest[0] != 10) {
            seq![13u8, 0u8]
        } else {
            seq![byte]
        }) + codec.encode(rest),
{
    let data = seq![byte] + rest;
    assert(data.skip(1) =~= rest);
    if rest.len() > 0 {
        assert(data[1] == rest[0]);
    }
}

/// On its way in a doubled 255 is one, the NUL behind a carriage return is left
/// out, and a command that is no negotiation says nothing.
pub proof fn bytes_come_in_one_by_one(codec: CodecState, byte: u8)
    requires
        codec.state == State::Data,
    ensures
        byte != 255 ==> codec.feed(seq![byte]).data == if codec.after_cr && byte == 0 {
            Seq::<u8>::empty()
        } else {
            seq![byte]
        },
        byte != 255 ==> codec.feed(seq![byte]).codec.after_cr == (byte == 13),
        codec.feed(seq![255u8, 255u8]).data == seq![255u8],
        byte < 250 ==> codec.feed(seq![255u8, byte]) == (Fed {
            codec,
            data: Seq::empty(),
            replies: Seq::empty(),
        }),
        codec.feed(seq![byte]).replies.len() == 0,
{
    reveal_with_fuel(CodecState::feed, 3);
    assert(seq![byte].drop_last() =~= Seq::empty());
    assert(seq![255u8, 255u8].drop_last() =~= seq![255u8]);
    assert(seq![255u8, byte].drop_last() =~= seq![255u8]);
    assert(seq![255u8].drop_last() =~= Seq::empty());
    assert(codec.feed(seq![255u8, 255u8]).data =~= seq![255u8]);
    if byte != 255 {
        assert(codec.feed(seq![byte]).data =~= if codec.after_cr && byte == 0 {
            Seq::<u8>::empty()
        } else {
            seq![byte]
        });
    }
    if byte < 250 {
        assert(codec.feed(seq![255u8, byte]) =~= (Fed {
            codec,
            data: Seq::empty(),
            replies: Seq::empty(),
        }));
    }
}

/// At first nothing is agreed on, nothing was asked for, and the window is eighty
/// columns wide and twenty-four rows high.
pub proof fn nothing_is_agreed_on_at_first(i: int)
    requires
        0 <= i < 256,
    ensures
        ({
            let codec = CodecState::fresh();
            &&& codec.state == State::Data
            &&& codec.sb.len() == 0
            &&& !codec.binary_out
            &&& !codec.naws
            &&& !codec.after_cr
            &&& codec.size == (80u16, 24u16)
            &&& !codec.us[i]
            &&& !codec.them[i]
        }),
{
}

/// Sixty-four bytes of a sub-negotiation are kept, and no more.
pub proof fn a_subnegotiation_is_kept_up_to_a_limit(codec: CodecState, byte: u8)
    ensures
        codec.sb.len() < 64 ==> codec.collect(byte).sb == codec.sb.push(byte),
        codec.sb.len() >= 64 ==> codec.collect(byte).sb == codec.sb,
        codec.collect(byte).state == State::Subnegotiation,
        codec.collect(byte).us == codec.us && codec.collect(byte).them == codec.them,
{
}

/// Only the question for the terminal type is answered.
pub proof fn only_the_terminal_type_is_told(codec: CodecState)
    ensures
        codec.sb.len() < 2 ==> codec.type_reply().len() == 0,
        codec.sb.len() >= 2 && (codec.sb[0] != 24 || codec.sb[1] != 1) ==> codec.type_reply().len()
            == 0,
        codec.sb.len() >= 2 && codec.sb[0] == 24 && codec.sb[1] == 1 ==> codec.type_reply().len()
            > 0,
{
}

} // verus!
