//! ObjectScript as it is typed: string literals and whole command lines.

use vstd::prelude::*;

use crate::term::syntax::string_end;
use crate::text::{chars_of, texts};

verus! {

/// What a character becomes inside a string literal: a quote is doubled.
pub open spec fn doubled_char(c: char) -> Seq<char> {
    if c == '"' {
        seq!['"', '"']
    } else {
        seq![c]
    }
}

pub open spec fn doubled(s: Seq<char>) -> Seq<char>
    decreases s.len(),
{
    if s.len() == 0 {
        Seq::empty()
    } else {
        doubled(s.drop_last()) + doubled_char(s.last())
    }
}

/// A string literal: the text in quotes, its own quotes doubled.
pub open spec fn literal(s: Seq<char>) -> Seq<char> {
    seq!['"'] + doubled(s) + seq!['"']
}

/// An IRIS string literal, quotes doubled the way ObjectScript escapes them.
pub fn quoted(s: &str) -> (out: String)
    ensures
        out@ == literal(s@),
{
    let chars = chars_of(s);
    let mut out = String::new();
    out.push('"');
    let mut i: usize = 0;
    while i < chars.len()
        invariant
            i <= chars@.len(),
            chars@ == s@,
            out@ =~= seq!['"'] + doubled(s@.take(i as int)),
        decreases chars.len() - i,
    {
        assert(s@.take(i + 1).drop_last() =~= s@.take(i as int));
        out.push(chars[i]);
        if chars[i] == '"' {
            out.push('"');
        }
        i += 1;
    }
    assert(s@.take(i as int) =~= s@);
    out.push('"');
    assert(out@ =~= literal(s@));
    out
}

/// Commands as they are typed: each followed by Enter.
pub open spec fn typed(lines: Seq<Seq<char>>) -> Seq<char>
    decreases lines.len(),
{
    if lines.len() == 0 {
        Seq::empty()
    } else {
        typed(lines.drop_last()) + lines.last().push('\r')
    }
}

/// Types each command and Enter after it.
pub fn type_lines(lines: &Vec<String>) -> (out: String)
    ensures
        out@ == typed(texts(lines@)),
{
    let ghost want = texts(lines@);
    let mut out = String::new();
    let mut i: usize = 0;
    assert(want.take(0) =~= Seq::empty());
    while i < lines.len()
        invariant
            i <= lines@.len(),
            want == texts(lines@),
            out@ == typed(want.take(i as int)),
        decreases lines.len() - i,
    {
        assert(want.take(i + 1).drop_last() =~= want.take(i as int));
        let ghost before = out@;
        out.append(lines[i].as_str());
        out.push('\r');
        assert(out@ =~= before + want[i as int].push('\r'));
        i += 1;
    }
    assert(want.take(i as int) =~= want);
    out
}

// ---- laws ---------------------------------------------------------------

proof fn doubled_in_pieces(a: Seq<char>, b: Seq<char>)
    ensures
        doubled(a + b) == doubled(a) + doubled(b),
    decreases b.len(),
{
    if b.len() == 0 {
        assert(a + b =~= a);
        assert(doubled(a) + doubled(b) =~= doubled(a));
    } else {
        doubled_in_pieces(a, b.drop_last());
        assert((a + b).drop_last() =~= a + b.drop_last());
        assert(doubled(a + b) =~= doubled(a) + doubled(b));
    }
}

proof fn literal_goes_on(s: Seq<char>, k: int)
    requires
        0 <= k <= s.len(),
    ensures
        string_end(literal(s), 1int + doubled(s.take(k)).len()) == literal(s).len(),
    decreases s.len() - k,
{
    let q = literal(s);
    let head = doubled(s.take(k));
    let tail = doubled(s.skip(k));
    assert(s.take(k) + s.skip(k) =~= s);
    doubled_in_pieces(s.take(k), s.skip(k));
    if k == s.len() {
        assert(s.take(k) =~= s);
        assert(q[1int + head.len()] == '"');
    } else {
        literal_goes_on(s, k + 1);
        let c = s[k];
        assert(s.take(k + 1).drop_last() =~= s.take(k));
        assert(seq![c] + s.skip(k + 1) =~= s.skip(k));
        doubled_in_pieces(seq![c], s.skip(k + 1));
        assert(seq![c].drop_last() =~= Seq::empty());
        reveal_with_fuel(doubled, 2);
        assert(doubled(seq![c]) =~= doubled_char(c));
        assert(q =~= seq!['"'] + head + doubled_char(c) + doubled(s.skip(k + 1)) + seq!['"']);
        assert(q[1int + head.len()] == doubled_char(c)[0]);
        if c == '"' {
            assert(q[1int + head.len() + 1] == doubled_char(c)[1]);
        }
    }
}

/// Whatever a literal is made of, it ends where it ends: no text can close its
/// own literal early and have the rest read as commands.
pub proof fn a_literal_is_one_string(s: Seq<char>)
    ensures
        string_end(literal(s), 1) == literal(s).len(),
{
    literal_goes_on(s, 0);
    assert(s.take(0) =~= Seq::empty());
}

} // verus!
