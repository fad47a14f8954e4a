//! Numbers as they are written: reading them, and writing them padded and
//! grouped.

use vstd::prelude::*;

use crate::text::{ascii_digit, decimal, digits, is_digit};

verus! {

// ---- reading ------------------------------------------------------------

/// Whether a text is decimal digits and nothing else, at least one.
pub open spec fn is_digits(s: Seq<char>) -> bool {
    s.len() > 0 && forall|i: int| 0 <= i < s.len() ==> ascii_digit(#[trigger] s[i])
}

/// The number that decimal digits stand for.
pub open spec fn value(s: Seq<char>) -> nat
    decreases s.len(),
{
    if s.len() == 0 {
        0
    } else {
        value(s.drop_last()) * 10 + (s.last() as nat - 48) as nat
    }
}

/// A text without the plus sign that may start it.
pub open spec fn without_plus(s: Seq<char>) -> Seq<char> {
    if s.len() > 0 && s[0] == '+' {
        s.skip(1)
    } else {
        s
    }
}

/// The unsigned number a text spells, if it spells one of at most `max`:
/// digits, perhaps behind a plus sign.
pub open spec fn unsigned(s: Seq<char>, max: int) -> Option<int> {
    let d = without_plus(s);
    if is_digits(d) && value(d) <= max {
        Some(value(d) as int)
    } else {
        None
    }
}

/// The number a text spells, if it spells one of 64 bits: digits, perhaps
/// behind a sign.
pub open spec fn signed(s: Seq<char>) -> Option<int> {
    if s.len() > 0 && s[0] == '-' {
        if is_digits(s.skip(1)) && value(s.skip(1)) <= 0x8000_0000_0000_0000 {
            Some(-(value(s.skip(1)) as int))
        } else {
            None
        }
    } else {
        unsigned(s, i64::MAX as int)
    }
}

proof fn value_grows(s: Seq<char>, n: int)
    requires
        0 <= n <= s.len(),
        forall|i: int| 0 <= i < s.len() ==> ascii_digit(#[trigger] s[i]),
    ensures
        value(s.take(n)) <= value(s),
    decreases s.len() - n,
{
    if n < s.len() {
        value_grows(s, n + 1);
        assert(s.take(n + 1).drop_last() =~= s.take(n));
    } else {
        assert(s.take(n) =~= s);
    }
}

/// Reads `from..to` as digits and nothing else.
fn read_digits(chars: &[char], from: usize, to: usize) -> (n: Option<u64>)
    requires
        from <= to <= chars@.len(),
    ensures
        ({
            let s = chars@.subrange(from as int, to as int);
            match n {
                Some(n) => is_digits(s) && value(s) == n,
                None => !is_digits(s) || value(s) > u64::MAX,
            }
        }),
{
    let ghost s = chars@.subrange(from as int, to as int);
    if from == to {
        return None;
    }
    let mut n: u64 = 0;
    let mut i: usize = from;
    assert(s.take(0) =~= Seq::empty());
    while i < to
        invariant
            from <= i <= to <= chars@.len(),
            s == chars@.subrange(from as int, to as int),
            forall|k: int| 0 <= k < i - from ==> ascii_digit(#[trigger] s[k]),
            n == value(s.take(i - from)),
        decreases to - i,
    {
        let c = chars[i];
        assert(s[i - from] == c);
        assert(s.take(i + 1 - from).drop_last() =~= s.take(i - from));
        if !is_digit(c) {
            return None;
        }
        let d = (c as u32 - 48) as u64;
        if n > (u64::MAX - d) / 10 {
            proof {
                assert(n * 10 + d > u64::MAX);
                if is_digits(s) {
                    value_grows(s, i + 1 - from);
                }
            }
            return None;
        }
        n = n * 10 + d;
        i += 1;
    }
    assert(s.take(i - from) =~= s);
    Some(n)
}

/// Reads `from..to` as an unsigned number of at most `max`.
pub fn read_unsigned(chars: &[char], from: usize, to: usize, max: u64) -> (n: Option<u64>)
    requires
        from <= to <= chars@.len(),
    ensures
        ({
            let s = chars@.subrange(from as int, to as int);
            match n {
                Some(n) => unsigned(s, max as int) == Some(n as int) && n <= max,
                None => unsigned(s, max as int) is None,
            }
        }),
{
    let ghost s = chars@.subrange(from as int, to as int);
    let start = if from < to && chars[from] == '+' {
        assert(s.skip(1) =~= chars@.subrange(from + 1, to as int));
        from + 1
    } else {
        from
    };
    match read_digits(chars, start, to) {
        Some(n) => if n <= max {
            Some(n)
        } else {
            None
        },
        None => None,
    }
}

/// Reads `from..to` as a number of 64 bits.
pub fn read_signed(chars: &[char], from: usize, to: usize) -> (n: Option<i64>)
    requires
        from <= to <= chars@.len(),
    ensures
        ({
            let s = chars@.subrange(from as int, to as int);
            match n {
                Some(n) => signed(s) == Some(n as int),
                None => signed(s) is None,
            }
        }),
{
    let ghost s = chars@.subrange(from as int, to as int);
    if from < to && chars[from] == '-' {
        assert(s.skip(1) =~= chars@.subrange(from + 1, to as int));
        match read_digits(chars, from + 1, to) {
            Some(n) => if n < 0x8000_0000_0000_0000 {
                Some(-(n as i64))
            } else if n == 0x8000_0000_0000_0000 {
                Some(i64::MIN)
            } else {
                None
            },
            None => None,
        }
    } else {
        match read_unsigned(chars, from, to, 0x7fff_ffff_ffff_ffff) {
            Some(n) => Some(n as i64),
            None => None,
        }
    }
}

// ---- writing ------------------------------------------------------------

/// A number in decimal with zeros in front of it up to `width` digits.
pub open spec fn padded(n: nat, width: nat) -> Seq<char> {
    let d = digits(n);
    if d.len() < width {
        Seq::new((width - d.len()) as nat, |i: int| '0') + d
    } else {
        d
    }
}

/// Appends a number with zeros in front of it up to `width` digits.
pub fn push_padded(out: &mut String, n: u64, width: usize)
    ensures
        final(out)@ == old(out)@ + padded(n as nat, width as nat),
{
    let text = decimal(n);
    let len = text.as_str().unicode_len();
    if len < width {
        let zeros = width - len;
        for i in 0..zeros
            invariant
                out@ =~= old(out)@ + Seq::new(i as nat, |k: int| '0'),
        {
            out.push('0');
        }
    }
    out.append(text.as_str());
    assert(out@ =~= old(out)@ + padded(n as nat, width as nat));
}

/// A number with a `.` every three digits from the right.
pub open spec fn grouped(n: nat) -> Seq<char>
    decreases n,
{
    if n < 1000 {
        digits(n)
    } else {
        grouped(n / 1000) + seq!['.'] + padded(n % 1000, 3)
    }
}

/// `n` with a `.` every three digits from the right, the way a pt-BR reader
/// expects a whole number to look.
pub fn group_thousands(n: u64) -> (s: String)
    ensures
        s@ == grouped(n as nat),
    decreases n,
{
    if n < 1000 {
        decimal(n)
    } else {
        let mut s = group_thousands(n / 1000);
        s.push('.');
        push_padded(&mut s, n % 1000, 3);
        assert(s@ =~= grouped((n / 1000) as nat) + seq!['.'] + padded((n % 1000) as nat, 3));
        s
    }
}

// ---- laws ---------------------------------------------------------------

proof fn digits_are_digits(n: nat)
    ensures
        is_digits(digits(n)),
        value(digits(n)) == n,
    decreases n,
{
    if n < 10 {
        assert(digits(n).drop_last() =~= Seq::empty());
        assert(value(Seq::<char>::empty()) == 0);
    } else {
        digits_are_digits(n / 10);
        assert(digits(n).drop_last() =~= digits(n / 10));
    }
}

/// A number that was written reads as itself.
pub proof fn what_is_written_is_read(n: nat, max: int)
    requires
        n <= max,
    ensures
        unsigned(digits(n), max) == Some(n as int),
{
    digits_are_digits(n);
    assert(ascii_digit(digits(n)[0]));
}

} // verus!
