//! Strings as sequences of characters: the conversions the rest of the library
//! is written with.

use vstd::prelude::*;

verus! {

/// `String::push` puts the character at the end of the string.
pub assume_specification[ String::push ](s: &mut String, ch: char)
    ensures
        final(s)@ == old(s)@.push(ch),
;

/// The characters of a string, one entry each.
pub fn chars_of(s: &str) -> (chars: Vec<char>)
    ensures
        chars@ == s@,
{
    let mut chars: Vec<char> = Vec::new();
    for ch in it: s.chars()
        invariant
            it.seq() == s@,
            chars@ =~= s@.take(it.index() as int),
    {
        chars.push(ch);
    }
    chars
}

/// The string that holds exactly these characters.
pub fn text_of(chars: &[char]) -> (s: String)
    ensures
        s@ == chars@,
{
    let mut s = String::new();
    let mut i: usize = 0;
    while i < chars.len()
        invariant
            i <= chars.len(),
            s@ =~= chars@.take(i as int),
        decreases chars.len() - i,
    {
        s.push(chars[i]);
        i += 1;
    }
    s
}

/// The character of a decimal digit.
pub open spec fn digit(d: nat) -> char {
    (48 + d) as char
}

/// A number in decimal, without leading zeros.
pub open spec fn digits(n: nat) -> Seq<char>
    decreases n,
{
    if n < 10 {
        seq![digit(n)]
    } else {
        digits(n / 10).push(digit(n % 10))
    }
}

/// The character of a decimal digit.
pub fn digit_char(d: u8) -> (ch: char)
    requires
        d < 10,
    ensures
        ch == digit(d as nat),
{
    (48 + d) as char
}

/// A number in decimal.
pub fn decimal(n: u64) -> (s: String)
    ensures
        s@ == digits(n as nat),
{
    let mut back: Vec<char> = Vec::new();
    let mut left: u64 = n;
    while left >= 10
        invariant
            digits(n as nat) =~= digits(left as nat) + back@.reverse(),
        decreases left,
    {
        let ghost was = back@;
        back.push(digit_char((left % 10) as u8));
        assert(back@.reverse() =~= seq![digit((left % 10) as nat)] + was.reverse());
        left = left / 10;
    }
    let ghost was = back@;
    back.push(digit_char(left as u8));
    assert(back@.reverse() =~= seq![digit(left as nat)] + was.reverse());
    let mut s = String::new();
    let mut i: usize = back.len();
    while i > 0
        invariant
            i <= back@.len(),
            s@ =~= back@.reverse().take(back@.len() - i),
        decreases i,
    {
        i -= 1;
        s.push(back[i]);
    }
    s
}

/// The low byte of each character: the bytes of text that is ASCII.
pub open spec fn low_bytes(s: Seq<char>) -> Seq<u8> {
    s.map_values(|ch: char| (ch as u32 % 256) as u8)
}

/// Appends the bytes of ASCII text.
pub fn push_ascii(out: &mut Vec<u8>, s: &str)
    ensures
        final(out)@ == old(out)@ + low_bytes(s@),
{
    let chars = chars_of(s);
    let mut i: usize = 0;
    while i < chars.len()
        invariant
            i <= chars@.len(),
            chars@ == s@,
            out@ =~= old(out)@ + low_bytes(s@).take(i as int),
        decreases chars.len() - i,
    {
        out.push((chars[i] as u32 % 256) as u8);
        i += 1;
    }
    assert(low_bytes(s@).take(s@.len() as int) =~= low_bytes(s@));
}

/// What `String::from_utf8_lossy` makes of bytes: the text, with whatever is
/// not UTF-8 replaced.
pub uninterp spec fn utf8_lossy(bytes: Seq<u8>) -> Seq<char>;

/// `String::from_utf8_lossy`. Bytes that are UTF-8 are decoded as they are.
#[verifier::external_body]
pub(crate) fn lossy(bytes: &[u8]) -> (s: String)
    ensures
        s@ == utf8_lossy(bytes@),
        vstd::utf8::valid_utf8(bytes@) ==> s@ == vstd::utf8::decode_utf8(bytes@),
{
    String::from_utf8_lossy(bytes).into_owned()
}

// ---- ASCII classes -------------------------------------------------------

/// A letter of ASCII.
pub open spec fn ascii_alpha(c: char) -> bool {
    'a' <= c <= 'z' || 'A' <= c <= 'Z'
}

/// A digit of ASCII.
pub open spec fn ascii_digit(c: char) -> bool {
    '0' <= c <= '9'
}

/// A letter or digit of ASCII.
pub open spec fn ascii_alnum(c: char) -> bool {
    ascii_alpha(c) || ascii_digit(c)
}

/// A character with ASCII capitals made small.
pub open spec fn lower_char(c: char) -> char {
    if 'A' <= c <= 'Z' {
        (c as u32 + 32) as char
    } else {
        c
    }
}

/// Text with ASCII capitals made small.
pub open spec fn lowered(s: Seq<char>) -> Seq<char> {
    s.map_values(|c: char| lower_char(c))
}

pub fn is_alpha(c: char) -> (yes: bool)
    ensures
        yes == ascii_alpha(c),
{
    ('a' <= c && c <= 'z') || ('A' <= c && c <= 'Z')
}

pub fn is_digit(c: char) -> (yes: bool)
    ensures
        yes == ascii_digit(c),
{
    '0' <= c && c <= '9'
}

pub fn is_alnum(c: char) -> (yes: bool)
    ensures
        yes == ascii_alnum(c),
{
    is_alpha(c) || is_digit(c)
}

pub fn lower(c: char) -> (small: char)
    ensures
        small == lower_char(c),
{
    if 'A' <= c && c <= 'Z' {
        (c as u8 + 32) as char
    } else {
        c
    }
}

/// A string with ASCII capitals made small.
pub fn lowered_text(s: &str) -> (t: String)
    ensures
        t@ == lowered(s@),
{
    let mut t = String::new();
    for c in it: s.chars()
        invariant
            it.seq() == s@,
            t@ =~= lowered(s@).take(it.index() as int),
    {
        t.push(lower(c));
    }
    assert(t@ =~= lowered(s@));
    t
}

/// Whether two strings hold the same characters.
pub fn same(a: &str, b: &str) -> (yes: bool)
    ensures
        yes == (a@ == b@),
{
    let left = chars_of(a);
    let mut i: usize = 0;
    for c in it: b.chars()
        invariant
            it.seq() == b@,
            left@ == a@,
            i == it.index(),
            i <= left@.len(),
            forall|k: int| 0 <= k < i ==> left@[k] == #[trigger] b@[k],
    {
        if i >= left.len() || left[i] != c {
            assert(i >= left@.len() || a@[i as int] != b@[i as int]);
            return false;
        }
        i += 1;
    }
    if i == left.len() {
        assert(a@ =~= b@);
        true
    } else {
        false
    }
}

// ---- white space ---------------------------------------------------------

/// The characters with the Unicode property White_Space.
pub open spec fn white_space(c: char) -> bool {
    let n = c as u32;
    9 <= n <= 13 || n == 0x20 || n == 0x85 || n == 0xa0 || n == 0x1680 || 0x2000 <= n <= 0x200a
        || n == 0x2028 || n == 0x2029 || n == 0x202f || n == 0x205f || n == 0x3000
}

pub fn is_white(c: char) -> (yes: bool)
    ensures
        yes == white_space(c),
{
    let n = c as u32;
    (9 <= n && n <= 13) || n == 0x20 || n == 0x85 || n == 0xa0 || n == 0x1680 || (0x2000 <= n && n
        <= 0x200a) || n == 0x2028 || n == 0x2029 || n == 0x202f || n == 0x205f || n == 0x3000
}

/// Text without the white space at its end.
pub open spec fn trim_end(s: Seq<char>) -> Seq<char>
    decreases s.len(),
{
    if s.len() > 0 && white_space(s.last()) {
        trim_end(s.drop_last())
    } else {
        s
    }
}

/// Text without the white space at its start.
pub open spec fn trim_start(s: Seq<char>) -> Seq<char>
    decreases s.len(),
{
    if s.len() > 0 && white_space(s[0]) {
        trim_start(s.skip(1))
    } else {
        s
    }
}

/// Text without the white space at either end.
pub open spec fn trim(s: Seq<char>) -> Seq<char> {
    trim_start(trim_end(s))
}

proof fn trim_end_ends(s: Seq<char>)
    ensures
        trim_end(s).len() > 0 ==> !white_space(trim_end(s).last()),
    decreases s.len(),
{
    if s.len() > 0 && white_space(s.last()) {
        trim_end_ends(s.drop_last());
    }
}

proof fn trim_start_starts(s: Seq<char>)
    ensures
        trim_start(s).len() > 0 ==> !white_space(trim_start(s)[0]) && trim_start(s).last()
            == s.last(),
        trim_start(s).len() <= s.len(),
    decreases s.len(),
{
    if s.len() > 0 && white_space(s[0]) {
        trim_start_starts(s.skip(1));
    }
}

/// Text that does not start with white space starts the same when trimmed.
pub proof fn trim_keeps_a_solid_start(s: Seq<char>)
    requires
        s.len() > 0,
        !white_space(s[0]),
    ensures
        trim(s).len() > 0,
        trim(s)[0] == s[0],
    decreases s.len(),
{
    if s.len() > 1 && white_space(s.last()) {
        trim_keeps_a_solid_start(s.drop_last());
    }
}

/// Blanks in front of a line that has none of its own are all that is trimmed.
pub proof fn trim_drops_leading_blanks(blanks: Seq<char>, line: Seq<char>)
    requires
        forall|i: int| 0 <= i < blanks.len() ==> #[trigger] blanks[i] == ' ',
        line.len() > 0 ==> trim(line) == line,
    ensures
        trim(blanks + line) == line,
    decreases blanks.len(),
{
    let s = blanks + line;
    if line.len() == 0 {
        if blanks.len() > 0 {
            assert(s =~= blanks);
            assert(blanks[blanks.len() - 1] == ' ');
            trim_drops_leading_blanks(blanks.drop_last(), line);
            assert(blanks.drop_last() + line =~= s.drop_last());
        } else {
            assert(s =~= line);
        }
        assert(trim(s) =~= line);
    } else {
        trim_end_ends(line);
        trim_start_starts(trim_end(line));
        assert(trim_end(line).len() <= line.len()) by {
            trim_end_is_shorter(line);
        }
        assert(trim_end(line) =~= line);
        assert(!white_space(line.last()));
        assert(!white_space(line[0]));
        assert(s.last() == line.last());
        assert(trim_end(s) == s);
        trim_start_drops(blanks, line);
    }
}

proof fn trim_end_is_shorter(s: Seq<char>)
    ensures
        trim_end(s).len() <= s.len(),
        trim_end(s) == s.take(trim_end(s).len() as int),
    decreases s.len(),
{
    if s.len() > 0 && white_space(s.last()) {
        trim_end_is_shorter(s.drop_last());
        assert(s.drop_last().take(trim_end(s).len() as int) =~= s.take(trim_end(s).len() as int));
    } else {
        assert(s.take(s.len() as int) =~= s);
    }
}

proof fn trim_start_drops(blanks: Seq<char>, line: Seq<char>)
    requires
        forall|i: int| 0 <= i < blanks.len() ==> #[trigger] blanks[i] == ' ',
        line.len() > 0,
        !white_space(line[0]),
    ensures
        trim_start(blanks + line) == line,
    decreases blanks.len(),
{
    if blanks.len() > 0 {
        assert((blanks + line)[0] == blanks[0]);
        assert((blanks + line).skip(1) =~= blanks.skip(1) + line);
        assert forall|i: int| 0 <= i < blanks.skip(1).len() implies #[trigger] blanks.skip(1)[i]
            == ' ' by {
            assert(blanks[i + 1] == ' ');
        }
        trim_start_drops(blanks.skip(1), line);
    } else {
        assert(blanks + line =~= line);
    }
}

/// Trimmed text has nothing left to trim.
pub proof fn trim_is_idempotent(s: Seq<char>)
    ensures
        trim(trim(s)) == trim(s),
{
    trim_end_ends(s);
    trim_start_starts(trim_end(s));
}

/// How many characters of `from..to` are left without the white space at the
/// end, as the column they end at.
pub fn end_of_trimmed(chars: &[char], from: usize, to: usize) -> (end: usize)
    requires
        from <= to <= chars@.len(),
    ensures
        from <= end <= to,
        chars@.subrange(from as int, end as int) == trim_end(chars@.subrange(from as int, to as int)),
{
    let mut end: usize = to;
    while end > from && is_white(chars[end - 1])
        invariant
            from <= end <= to <= chars@.len(),
            trim_end(chars@.subrange(from as int, end as int)) == trim_end(
                chars@.subrange(from as int, to as int),
            ),
        decreases end,
    {
        assert(chars@.subrange(from as int, end as int).drop_last() =~= chars@.subrange(
            from as int,
            end - 1,
        ));
        end -= 1;
    }
    end
}

/// Where `from..to` starts without the white space at the start.
pub fn start_of_trimmed(chars: &[char], from: usize, to: usize) -> (start: usize)
    requires
        from <= to <= chars@.len(),
    ensures
        from <= start <= to,
        chars@.subrange(start as int, to as int) == trim_start(
            chars@.subrange(from as int, to as int),
        ),
{
    let mut start: usize = from;
    while start < to && is_white(chars[start])
        invariant
            from <= start <= to <= chars@.len(),
            trim_start(chars@.subrange(start as int, to as int)) == trim_start(
                chars@.subrange(from as int, to as int),
            ),
        decreases to - start,
    {
        assert(chars@.subrange(start as int, to as int).skip(1) =~= chars@.subrange(
            start + 1,
            to as int,
        ));
        start += 1;
    }
    start
}

/// The string that holds the characters of `from..to`.
pub fn text_between(chars: &[char], from: usize, to: usize) -> (s: String)
    requires
        from <= to <= chars@.len(),
    ensures
        s@ == chars@.subrange(from as int, to as int),
{
    let mut s = String::new();
    let mut i: usize = from;
    while i < to
        invariant
            from <= i <= to <= chars@.len(),
            s@ =~= chars@.subrange(from as int, i as int),
        decreases to - i,
    {
        s.push(chars[i]);
        i += 1;
    }
    s
}

/// A string without the white space at either end.
pub fn trimmed(s: &str) -> (t: String)
    ensures
        t@ == trim(s@),
{
    let chars = chars_of(s);
    let end = end_of_trimmed(chars.as_slice(), 0, chars.len());
    let start = start_of_trimmed(chars.as_slice(), 0, end);
    assert(chars@.subrange(0, chars@.len() as int) =~= s@);
    text_between(chars.as_slice(), start, end)
}

/// Whether a character has the Unicode property Alphabetic or one of the
/// numeric categories.
pub uninterp spec fn unicode_alphanumeric(c: char) -> bool;

/// `char::is_alphanumeric`. In ASCII it is the letters and the digits.
pub assume_specification[ char::is_alphanumeric ](c: char) -> (yes: bool)
    ensures
        yes == unicode_alphanumeric(c),
        (c as u32) < 128 ==> yes == ascii_alnum(c),
;

// ---- cutting up ----------------------------------------------------------

/// Text cut at every `sep`. There is always one piece more than there are
/// separators.
pub open spec fn split(s: Seq<char>, sep: char) -> Seq<Seq<char>>
    decreases s.len(),
{
    if s.len() == 0 {
        seq![Seq::empty()]
    } else {
        let before = split(s.drop_last(), sep);
        if s.last() == sep {
            before.push(Seq::empty())
        } else {
            before.drop_last().push(before.last().push(s.last()))
        }
    }
}

/// The characters of each piece.
pub open spec fn views(pieces: Seq<Vec<char>>) -> Seq<Seq<char>> {
    pieces.map_values(|p: Vec<char>| p@)
}

pub proof fn split_has_pieces(s: Seq<char>, sep: char)
    ensures
        split(s, sep).len() > 0,
    decreases s.len(),
{
    if s.len() > 0 {
        split_has_pieces(s.drop_last(), sep);
    }
}

/// Cuts text at every `sep`.
pub fn split_chars(chars: &[char], sep: char) -> (pieces: Vec<Vec<char>>)
    ensures
        views(pieces@) == split(chars@, sep),
        pieces@.len() > 0,
{
    let mut pieces: Vec<Vec<char>> = Vec::new();
    let mut piece: Vec<char> = Vec::new();
    let mut i: usize = 0;
    assert(views(pieces@).push(piece@) =~= split(chars@.take(0), sep));
    while i < chars.len()
        invariant
            i <= chars@.len(),
            views(pieces@).push(piece@) =~= split(chars@.take(i as int), sep),
        decreases chars.len() - i,
    {
        assert(chars@.take(i + 1).drop_last() =~= chars@.take(i as int));
        let ghost before = views(pieces@);
        let ghost was = piece@;
        let ghost done = split(chars@.take(i as int), sep);
        assert(done.drop_last() =~= before);
        assert(done.last() == was);
        if chars[i] == sep {
            pieces.push(piece);
            piece = Vec::new();
            assert(views(pieces@) =~= before.push(was));
        } else {
            piece.push(chars[i]);
        }
        i += 1;
    }
    assert(chars@.take(i as int) =~= chars@);
    let ghost before = views(pieces@);
    let ghost last = piece@;
    pieces.push(piece);
    assert(views(pieces@) =~= before.push(last));
    pieces
}

/// Text with every occurrence of `pat`, searched from the left, replaced.
pub open spec fn replaced(s: Seq<char>, pat: Seq<char>, with: Seq<char>) -> Seq<char>
    decreases s.len(),
{
    if pat.len() == 0 || s.len() < pat.len() {
        s
    } else if s.take(pat.len() as int) == pat {
        with + replaced(s.skip(pat.len() as int), pat, with)
    } else {
        seq![s[0]] + replaced(s.skip(1), pat, with)
    }
}

/// Whether `pat` stands at `at`.
pub fn stands_at(chars: &[char], at: usize, pat: &[char]) -> (yes: bool)
    requires
        at <= chars@.len(),
    ensures
        yes == (at + pat@.len() <= chars@.len() && chars@.subrange(at as int, at + pat@.len())
            == pat@),
{
    let len = chars.len();
    if pat.len() > len - at {
        return false;
    }
    let mut k: usize = 0;
    while k < pat.len()
        invariant
            k <= pat@.len(),
            at + pat@.len() <= len == chars@.len(),
            forall|j: int| 0 <= j < k ==> chars@[at + j] == #[trigger] pat@[j],
        decreases pat.len() - k,
    {
        if chars[at + k] != pat[k] {
            assert(chars@.subrange(at as int, at + pat@.len())[k as int] != pat@[k as int]);
            return false;
        }
        k += 1;
    }
    assert(chars@.subrange(at as int, at + pat@.len()) =~= pat@);
    true
}

/// Whether `pat` stands anywhere in a text.
pub open spec fn occurs(s: Seq<char>, pat: Seq<char>) -> bool {
    exists|i: int|
        0 <= i && i + pat.len() <= s.len() && #[trigger] s.subrange(i, i + pat.len()) == pat
}

/// Whether `pat` stands anywhere in the characters.
pub fn contains(chars: &[char], pat: &[char]) -> (yes: bool)
    ensures
        yes == occurs(chars@, pat@),
{
    let mut i: usize = 0;
    let len = chars.len();
    loop
        invariant
            i <= len == chars@.len(),
            forall|k: int|
                0 <= k < i && k + pat@.len() <= chars@.len() ==> #[trigger] chars@.subrange(
                    k,
                    k + pat@.len(),
                ) != pat@,
        decreases len - i,
    {
        if stands_at(chars, i, pat) {
            assert(chars@.subrange(i as int, i + pat@.len()) == pat@);
            return true;
        }
        if i == len {
            return false;
        }
        i += 1;
    }
}

/// Replaces every occurrence of `pat`, searched from the left.
pub fn replace_all(chars: &[char], pat: &[char], with: &[char]) -> (out: Vec<char>)
    requires
        pat@.len() > 0,
    ensures
        out@ == replaced(chars@, pat@, with@),
{
    let mut out: Vec<char> = Vec::new();
    let mut i: usize = 0;
    assert(chars@.skip(0) =~= chars@);
    while i < chars.len()
        invariant
            i <= chars@.len(),
            pat@.len() > 0,
            out@ + replaced(chars@.skip(i as int), pat@, with@) =~= replaced(chars@, pat@, with@),
        decreases chars.len() - i,
    {
        let ghost rest = chars@.skip(i as int);
        if stands_at(chars, i, pat) {
            assert(rest.take(pat@.len() as int) =~= chars@.subrange(i as int, i + pat@.len()));
            assert(rest.skip(pat@.len() as int) =~= chars@.skip(i + pat@.len()));
            push_chars(&mut out, with);
            i += pat.len();
        } else {
            proof {
                if rest.len() >= pat@.len() {
                    assert(rest.take(pat@.len() as int) =~= chars@.subrange(
                        i as int,
                        i + pat@.len(),
                    ));
                    assert(rest.skip(1) =~= chars@.skip(i + 1));
                } else {
                    assert(rest =~= seq![rest[0]] + chars@.skip(i + 1));
                }
            }
            out.push(chars[i]);
            i += 1;
        }
    }
    assert(replaced(chars@.skip(i as int), pat@, with@) =~= Seq::empty());
    out
}

/// Appends characters.
pub fn push_chars(out: &mut Vec<char>, chars: &[char])
    ensures
        final(out)@ == old(out)@ + chars@,
{
    let mut i: usize = 0;
    while i < chars.len()
        invariant
            i <= chars@.len(),
            out@ =~= old(out)@ + chars@.take(i as int),
        decreases chars.len() - i,
    {
        out.push(chars[i]);
        i += 1;
    }
    assert(chars@.take(i as int) =~= chars@);
}

/// How often a character occurs in a text.
pub open spec fn count(s: Seq<char>, c: char) -> nat
    decreases s.len(),
{
    if s.len() == 0 {
        0
    } else {
        count(s.drop_last(), c) + if s.last() == c {
            1nat
        } else {
            0
        }
    }
}

/// How often a character occurs in the first `to` characters.
pub fn count_in(chars: &[char], to: usize, c: char) -> (n: usize)
    requires
        to <= chars@.len(),
    ensures
        n == count(chars@.take(to as int), c),
        n <= to,
{
    let mut n: usize = 0;
    let mut i: usize = 0;
    assert(chars@.take(0) =~= Seq::empty());
    while i < to
        invariant
            i <= to <= chars@.len(),
            n <= i,
            n == count(chars@.take(i as int), c),
        decreases to - i,
    {
        assert(chars@.take(i + 1).drop_last() =~= chars@.take(i as int));
        if chars[i] == c {
            n += 1;
        }
        i += 1;
    }
    n
}

/// There is one piece more than there are separators, and no more separators in
/// a part of a text than in all of it.
pub proof fn pieces_and_separators(s: Seq<char>, sep: char, n: int)
    requires
        0 <= n <= s.len(),
    ensures
        split(s, sep).len() == count(s, sep) + 1,
        count(s.take(n), sep) <= count(s, sep),
    decreases s.len(),
{
    if s.len() > 0 {
        split_has_pieces(s.drop_last(), sep);
        if n < s.len() {
            pieces_and_separators(s.drop_last(), sep, n);
            assert(s.drop_last().take(n) =~= s.take(n));
        } else {
            pieces_and_separators(s.drop_last(), sep, n - 1);
            assert(s.take(n) =~= s);
        }
    } else {
        assert(s.take(n) =~= s);
    }
}

/// Where the first `sep` of `from..` stands.
pub open spec fn first_at(s: Seq<char>, sep: char, from: int) -> Option<int>
    decreases s.len() - from,
{
    if from < 0 || from >= s.len() {
        None
    } else if s[from] == sep {
        Some(from)
    } else {
        first_at(s, sep, from + 1)
    }
}

/// Where the first `sep` stands.
pub fn find(chars: &[char], sep: char) -> (at: Option<usize>)
    ensures
        match at {
            Some(i) => i < chars@.len() && first_at(chars@, sep, 0) == Some(i as int),
            None => first_at(chars@, sep, 0) is None,
        },
{
    let mut i: usize = 0;
    while i < chars.len()
        invariant
            i <= chars@.len(),
            first_at(chars@, sep, 0) == first_at(chars@, sep, i as int),
        decreases chars.len() - i,
    {
        if chars[i] == sep {
            return Some(i);
        }
        i += 1;
    }
    None
}

/// The text before the first `sep` and the text after it.
pub open spec fn cut_once(s: Seq<char>, sep: char) -> Option<(Seq<char>, Seq<char>)> {
    match first_at(s, sep, 0) {
        Some(i) => Some((s.take(i), s.skip(i + 1))),
        None => None,
    }
}

/// A line without the carriage return that may end it.
pub open spec fn without_return(s: Seq<char>) -> Seq<char> {
    if s.len() > 0 && s.last() == '\r' {
        s.drop_last()
    } else {
        s
    }
}

/// The last line of a text, if it has any: line endings are `\n` or `\r\n`, and
/// one at the very end starts no further line.
pub open spec fn last_line(s: Seq<char>) -> Option<Seq<char>> {
    let pieces = split(s, '\n');
    if pieces.last().len() > 0 {
        Some(pieces.last())
    } else if pieces.len() > 1 {
        Some(without_return(pieces[pieces.len() - 2]))
    } else {
        None
    }
}

/// What `str::to_lowercase` makes of a text: every character in lower case, by
/// the Unicode tables.
pub uninterp spec fn unicode_lower(s: Seq<char>) -> Seq<char>;

/// `str::to_lowercase`. In ASCII it is the letters `A` to `Z` that change.
pub assume_specification[ str::to_lowercase ](s: &str) -> (t: String)
    ensures
        t@ == unicode_lower(s@),
        (forall|i: int| 0 <= i < s@.len() ==> (#[trigger] s@[i] as u32) < 128) ==> t@ == lowered(
            s@,
        ),
;

/// Lines put together, a line feed between each two.
pub open spec fn joined(lines: Seq<Seq<char>>) -> Seq<char>
    decreases lines.len(),
{
    if lines.len() == 0 {
        Seq::empty()
    } else if lines.len() == 1 {
        lines[0]
    } else {
        joined(lines.drop_last()) + seq!['\n'] + lines.last()
    }
}

/// Puts lines `from..` together, a line feed between each two.
pub fn join_from(lines: &Vec<Vec<char>>, from: usize) -> (out: Vec<char>)
    requires
        from <= lines@.len(),
    ensures
        out@ == joined(views(lines@).skip(from as int)),
{
    let ghost want = views(lines@).skip(from as int);
    let mut out: Vec<char> = Vec::new();
    let mut i: usize = from;
    assert(want.take(0) =~= Seq::empty());
    while i < lines.len()
        invariant
            from <= i <= lines@.len(),
            want == views(lines@).skip(from as int),
            out@ == joined(want.take(i - from)),
        decreases lines.len() - i,
    {
        assert(want.take(i + 1 - from).drop_last() =~= want.take(i - from));
        assert(want[i - from] == lines@[i as int]@);
        if i > from {
            out.push('\n');
        }
        let ghost before = out@;
        push_chars(&mut out, lines[i].as_slice());
        if i == from {
            assert(out@ =~= want[0]);
        } else {
            assert(out@ =~= joined(want.take(i - from)) + seq!['\n'] + want[i - from]);
        }
        i += 1;
    }
    assert(want.take(i - from) =~= want);
    out
}

/// A text without a line feed is one line.
pub proof fn a_line_is_one_piece(s: Seq<char>)
    requires
        !s.contains('\n'),
    ensures
        split(s, '\n') == seq![s],
    decreases s.len(),
{
    if s.len() == 0 {
        assert(s =~= Seq::empty());
    } else {
        assert(s[s.len() - 1] == s.last());
        assert forall|i: int| 0 <= i < s.drop_last().len() implies s.drop_last()[i] != '\n' by {
            assert(s[i] != '\n');
        }
        a_line_is_one_piece(s.drop_last());
        assert(s.drop_last().push(s.last()) =~= s);
        assert(split(s, '\n') =~= seq![s]);
    }
}

/// The lines on both sides of a line feed are the lines of the whole.
pub proof fn split_at_a_line_feed(a: Seq<char>, b: Seq<char>)
    ensures
        split(a.push('\n') + b, '\n') == split(a, '\n') + split(b, '\n'),
    decreases b.len(),
{
    if b.len() == 0 {
        assert(a.push('\n') + b =~= a.push('\n'));
        assert(a.push('\n').drop_last() =~= a);
        assert(split(a.push('\n'), '\n') =~= split(a, '\n') + split(b, '\n'));
    } else {
        split_at_a_line_feed(a, b.drop_last());
        split_has_pieces(b.drop_last(), '\n');
        assert((a.push('\n') + b).drop_last() =~= a.push('\n') + b.drop_last());
        let before = split(a, '\n') + split(b.drop_last(), '\n');
        assert(before.drop_last() =~= split(a, '\n') + split(b.drop_last(), '\n').drop_last());
        assert(split(a.push('\n') + b, '\n') =~= split(a, '\n') + split(b, '\n'));
    }
}

/// Lines that were put together come apart again.
pub proof fn joined_is_split_again(lines: Seq<Seq<char>>)
    requires
        lines.len() > 0,
        forall|i: int| 0 <= i < lines.len() ==> !(#[trigger] lines[i]).contains('\n'),
    ensures
        split(joined(lines), '\n') == lines,
    decreases lines.len(),
{
    let n = lines.len() - 1;
    assert(!lines[n].contains('\n'));
    a_line_is_one_piece(lines[n]);
    if lines.len() == 1 {
        assert(seq![lines[0]] =~= lines);
    } else {
        assert forall|i: int| 0 <= i < n implies !(#[trigger] lines.drop_last()[i]).contains(
            '\n',
        ) by {
            assert(!lines[i].contains('\n'));
        }
        joined_is_split_again(lines.drop_last());
        split_at_a_line_feed(joined(lines.drop_last()), lines.last());
        assert(joined(lines) =~= joined(lines.drop_last()).push('\n') + lines.last());
        assert(lines.drop_last() + seq![lines.last()] =~= lines);
    }
}

/// Where a pattern first stands, searching from `from`.
pub open spec fn found_at(s: Seq<char>, pat: Seq<char>, from: int) -> Option<int>
    decreases s.len() - from + 1,
{
    if from < 0 || from + pat.len() > s.len() {
        None
    } else if s.subrange(from, from + pat.len()) == pat {
        Some(from)
    } else {
        found_at(s, pat, from + 1)
    }
}

/// Where a pattern first stands.
pub fn search(chars: &[char], pat: &[char]) -> (at: Option<usize>)
    ensures
        match at {
            Some(i) => i + pat@.len() <= chars@.len() && found_at(chars@, pat@, 0) == Some(i as int),
            None => found_at(chars@, pat@, 0) is None,
        },
{
    let len = chars.len();
    let mut i: usize = 0;
    loop
        invariant
            i <= len == chars@.len(),
            found_at(chars@, pat@, 0) == found_at(chars@, pat@, i as int),
        decreases len - i,
    {
        if stands_at(chars, i, pat) {
            return Some(i);
        }
        if i == len {
            assert(chars@.subrange(i as int, i as int) =~= Seq::<char>::empty());
            assert(pat@.len() == 0 ==> pat@ =~= Seq::<char>::empty());
            assert(found_at(chars@, pat@, i as int) is None);
            return None;
        }
        i += 1;
    }
}

/// What follows the first occurrence of a pattern.
pub open spec fn after(s: Seq<char>, pat: Seq<char>) -> Option<Seq<char>> {
    match found_at(s, pat, 0) {
        Some(i) => Some(s.skip(i + pat.len())),
        None => None,
    }
}

/// What follows a prefix of a text, if the text starts with it.
pub open spec fn behind(s: Seq<char>, prefix: Seq<char>) -> Option<Seq<char>> {
    if s.len() >= prefix.len() && s.take(prefix.len() as int) == prefix {
        Some(s.skip(prefix.len() as int))
    } else {
        None
    }
}

/// What follows a prefix of a text, if the text starts with it.
pub fn strip(s: &str, prefix: &str) -> (rest: Option<String>)
    ensures
        match rest {
            Some(rest) => behind(s@, prefix@) == Some(rest@),
            None => behind(s@, prefix@) is None,
        },
{
    let chars = chars_of(s);
    let pat = chars_of(prefix);
    if chars.len() >= pat.len() {
        assert(chars@.take(pat@.len() as int) =~= chars@.subrange(0, pat@.len() as int));
    }
    if stands_at(chars.as_slice(), 0, pat.as_slice()) {
        let rest = text_between(chars.as_slice(), pat.len(), chars.len());
        assert(rest@ =~= chars@.skip(pat@.len() as int));
        Some(rest)
    } else {
        None
    }
}

// ---- lists of strings ----------------------------------------------------

/// The characters of each string.
pub open spec fn texts(strings: Seq<String>) -> Seq<Seq<char>> {
    strings.map_values(|s: String| s@)
}

/// The lists of characters of a list of strings.
pub fn to_chars(strings: &[String]) -> (chars: Vec<Vec<char>>)
    ensures
        views(chars@) == texts(strings@),
{
    let mut chars: Vec<Vec<char>> = Vec::new();
    let mut i: usize = 0;
    while i < strings.len()
        invariant
            i <= strings@.len(),
            chars@.len() == i,
            forall|k: int| 0 <= k < i ==> (#[trigger] chars@[k])@ == strings@[k]@,
        decreases strings.len() - i,
    {
        chars.push(chars_of(strings[i].as_str()));
        i += 1;
    }
    assert(views(chars@) =~= texts(strings@));
    chars
}

/// The characters of a string that may be missing.
pub open spec fn opt_text(s: Option<String>) -> Option<Seq<char>> {
    match s {
        Some(s) => Some(s@),
        None => None,
    }
}

pub broadcast proof fn texts_push(strings: Seq<String>, s: String)
    ensures
        #[trigger] texts(strings.push(s)) == texts(strings).push(s@),
{
    assert(texts(strings.push(s)) =~= texts(strings).push(s@));
}

/// Characters `from..to`.
pub fn copied(chars: &[char], from: usize, to: usize) -> (piece: Vec<char>)
    requires
        from <= to <= chars@.len(),
    ensures
        piece@ == chars@.subrange(from as int, to as int),
{
    let mut piece: Vec<char> = Vec::new();
    let mut i: usize = from;
    while i < to
        invariant
            from <= i <= to <= chars@.len(),
            piece@ =~= chars@.subrange(from as int, i as int),
        decreases to - i,
    {
        piece.push(chars[i]);
        i += 1;
    }
    piece
}

/// A copy of a list of strings.
pub fn copied_strings(strings: &Vec<String>) -> (out: Vec<String>)
    ensures
        texts(out@) == texts(strings@),
{
    let mut out: Vec<String> = Vec::new();
    let ghost all = texts(strings@);
    let mut i: usize = 0;
    while i < strings.len()
        invariant
            i <= strings@.len(),
            all == texts(strings@),
            texts(out@) =~= all.take(i as int),
        decreases strings.len() - i,
    {
        let ghost before = out@;
        out.push(strings[i].clone());
        proof {
            texts_push(before, out@.last());
            assert(out@ =~= before.push(out@.last()));
        }
        i += 1;
    }
    assert(all.take(i as int) =~= all);
    out
}

/// A copy of a string that may be missing.
pub fn copied_option(s: &Option<String>) -> (out: Option<String>)
    ensures
        opt_text(out) == opt_text(*s),
{
    match s {
        Some(s) => Some(s.clone()),
        None => None,
    }
}

} // verus!
