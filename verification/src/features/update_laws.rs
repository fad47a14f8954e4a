//! Versions, releases and the exchange of builds, written out.

use vstd::prelude::*;

use super::doc_laws::fields_come_apart;
use super::swap::{following, swapped, Files, Stage, Step};
use super::update::{
    at, build_among, differs_at, entry_for, first_set, later, latest_at, leading_digits,
    numbers, proxy_named, spec_of, up_to, version_numbers, without_end, without_suffix, without_v,
    Asset,
};
use crate::number::what_is_written_is_read;
use crate::text::{after, ascii_digit, behind, digits, first_at, found_at, occurs, trim};
use crate::text_laws::{
    after_a_pattern, behind_a_prefix, finding, rejoined, solid, trimming_takes_off_what_is_around,
};

verus! {

// ---- versions -----------------------------------------------------------

proof fn characters_of_a_number(n: nat)
    ensures
        digits(n).len() > 0,
        forall|i: int| 0 <= i < digits(n).len() ==> ascii_digit(#[trigger] digits(n)[i]),
    decreases n,
{
    if n >= 10 {
        characters_of_a_number(n / 10);
    }
}

proof fn all_digits_lead(s: Seq<char>)
    requires
        forall|i: int| 0 <= i < s.len() ==> ascii_digit(#[trigger] s[i]),
    ensures
        leading_digits(s) == s,
    decreases s.len(),
{
    if s.len() > 0 {
        assert(ascii_digit(s[0]));
        assert forall|i: int| 0 <= i < s.skip(1).len() implies ascii_digit(#[trigger] s.skip(1)[i]) by {
            assert(ascii_digit(s[i + 1]));
        }
        all_digits_lead(s.skip(1));
        assert(seq![s[0]] + s.skip(1) =~= s);
    } else {
        assert(s =~= Seq::empty());
    }
}

proof fn no_suffix(s: Seq<char>)
    requires
        forall|i: int| 0 <= i < s.len() ==> #[trigger] s[i] != '-' && s[i] != '+',
    ensures
        without_suffix(s) == s,
    decreases s.len(),
{
    if s.len() > 0 {
        assert(s[0] != '-');
        assert forall|i: int| 0 <= i < s.skip(1).len() implies #[trigger] s.skip(1)[i] != '-'
            && s.skip(1)[i] != '+' by {
            assert(s[i + 1] != '-');
        }
        no_suffix(s.skip(1));
        assert(seq![s[0]] + s.skip(1) =~= s);
    } else {
        assert(s =~= Seq::empty());
    }
}

/// A version of three numbers is those numbers, with or without a `v` before
/// them.
pub proof fn a_version_is_its_numbers(a: u64, b: u64, c: u64)
    ensures
        ({
            let text = digits(a as nat) + seq!['.'] + digits(b as nat) + seq!['.'] + digits(
                c as nat,
            );
            &&& version_numbers(text) == seq![a, b, c]
            &&& version_numbers(seq!['v'] + text) == seq![a, b, c]
        }),
{
    let (x, y, z) = (digits(a as nat), digits(b as nat), digits(c as nat));
    let text = x + seq!['.'] + y + seq!['.'] + z;
    let tagged = seq!['v'] + text;
    let nothing = Seq::<char>::empty();
    characters_of_a_number(a as nat);
    characters_of_a_number(b as nat);
    characters_of_a_number(c as nat);
    assert(ascii_digit(x[0]) && ascii_digit(z[z.len() - 1]));
    assert(text[0] == x[0] && text.last() == z.last() && tagged[0] == 'v' && tagged.last()
        == z.last());
    trimming_takes_off_what_is_around(nothing, text, nothing);
    trimming_takes_off_what_is_around(nothing, tagged, nothing);
    assert(nothing + text + nothing =~= text);
    assert(nothing + tagged + nothing =~= tagged);
    assert(tagged.skip(1) =~= text);
    reveal_with_fuel(without_v, 2);
    assert forall|i: int| 0 <= i < text.len() implies #[trigger] text[i] != '-' && text[i] != '+' by {
        let (n, m) = (x.len() as int, (x.len() + 1 + y.len()) as int);
        if i < n {
            assert(text[i] == x[i]);
            assert(ascii_digit(x[i]));
        } else if n < i < m {
            assert(text[i] == y[i - n - 1]);
            assert(ascii_digit(y[i - n - 1]));
        } else if i > m {
            assert(text[i] == z[i - m - 1]);
            assert(ascii_digit(z[i - m - 1]));
        }
    }
    no_suffix(text);
    let fields = seq![x, y, z];
    assert forall|i: int| 0 <= i < fields.len() implies !(#[trigger] fields[i]).contains('.') by {
        let f = fields[i];
        if f.contains('.') {
            let k = choose|k: int| 0 <= k < f.len() && f[k] == '.';
            assert(ascii_digit(f[k]));
        }
    }
    fields_come_apart(fields, '.');
    reveal_with_fuel(rejoined, 4);
    assert(fields.drop_last() =~= seq![x, y]);
    assert(fields.drop_last().drop_last() =~= seq![x]);
    assert(rejoined(fields, '.') =~= text);
    all_digits_lead(x);
    all_digits_lead(y);
    all_digits_lead(z);
    what_is_written_is_read(a as nat, u64::MAX as int);
    what_is_written_is_read(b as nat, u64::MAX as int);
    what_is_written_is_read(c as nat, u64::MAX as int);
    reveal_with_fuel(numbers, 4);
    assert(fields.drop_last().drop_last().drop_last() =~= Seq::empty());
    assert(numbers(fields) =~= seq![a, b, c]);
}

/// The first number decides, then the second, then the third.
pub proof fn the_first_number_decides(a: Seq<u64>, b: Seq<u64>)
    requires
        a.len() == 3,
        b.len() == 3,
    ensures
        later(a, b) == (a[0] > b[0] || (a[0] == b[0] && (a[1] > b[1] || (a[1] == b[1] && a[2]
            > b[2])))),
{
    if a[0] > b[0] {
        assert(differs_at(a, b, 0));
    } else if a[0] == b[0] && a[1] > b[1] {
        assert forall|j: int| 0 <= j < 1 implies #[trigger] at(a, j) == at(b, j) by {}
        assert(differs_at(a, b, 1));
    } else if a[0] == b[0] && a[1] == b[1] && a[2] > b[2] {
        assert forall|j: int| 0 <= j < 2 implies #[trigger] at(a, j) == at(b, j) by {}
        assert(differs_at(a, b, 2));
    }
    if later(a, b) {
        let i = choose|i: int| #[trigger] differs_at(a, b, i) && at(a, i) > at(b, i);
        assert(i < 3);
        if i > 0 {
            assert(at(a, 0) == at(b, 0));
        }
        if i > 1 {
            assert(at(a, 1) == at(b, 1));
        }
    }
}

// ---- where to ask -------------------------------------------------------

proof fn the_literals()
    ensures
        "github.com/"@.len() == 11,
        "github.com/"@[0] == 'g',
        "https://github.com/"@ == "https://"@ + "github.com/"@,
        "https://"@.len() == 8,
        forall|i: int| 0 <= i < 8 ==> #[trigger] "https://"@[i] != 'g',
        ".git"@.len() == 4,
        forall|i: int| 0 <= i < 4 ==> #[trigger] ".git"@[i] != '/',
{
    reveal_strlit("github.com/");
    reveal_strlit("https://github.com/");
    reveal_strlit("https://");
    reveal_strlit(".git");
    assert("https://github.com/"@ =~= "https://"@ + "github.com/"@);
}

/// The releases of a repository are asked for under its owner and its name.
pub proof fn releases_are_asked_for_by_owner_and_name(owner: Seq<char>, name: Seq<char>)
    requires
        owner.len() > 0,
        name.len() > 0,
        !owner.contains('/'),
        !name.contains('/'),
        !occurs(owner + seq!['/'] + name, "github.com/"@),
        name.len() < 4 || name.skip(name.len() - 4) != ".git"@,
    ensures
        latest_at("https://github.com/"@ + owner + seq!['/'] + name) == Some(
            "https://api.github.com/repos/"@ + owner + seq!['/'] + name + "/releases/latest"@,
        ),
{
    the_literals();
    let host = "github.com/"@;
    let rest = owner + seq!['/'] + name;
    let s = "https://github.com/"@ + owner + seq!['/'] + name;
    let n = s.len() as int;
    assert(s =~= "https://"@ + host + rest);
    assert(s.last() == name.last());
    assert(name[name.len() - 1] != '/');
    assert(s.skip(n - 1)[0] == s.last());
    assert(without_end(s, seq!['/']) == s);
    assert(s.skip(n - 4) != ".git"@) by {
        if name.len() >= 4 {
            assert(s.skip(n - 4) =~= name.skip(name.len() - 4));
        } else {
            let k = 3 - name.len();
            assert(s.skip(n - 4)[k] == s[n - 1 - name.len()]);
            assert(s[n - 1 - name.len()] == '/');
        }
    }
    assert(without_end(s, ".git"@) == s);
    assert forall|i: int| 0 <= i < 8 implies #[trigger] s.subrange(i, i + 11) != host by {
        assert(s.subrange(i, i + 11)[0] == s[i]);
        assert(s[i] == "https://"@[i]);
    }
    assert(s.subrange(8, 19) =~= host);
    found_there(s, host, 0, 8);
    assert(s.skip(19) =~= rest);
    after_a_pattern(rest, host);
    let fields = seq![owner, name];
    fields_come_apart(fields, '/');
    reveal_with_fuel(rejoined, 3);
    assert(fields.drop_last() =~= seq![owner]);
    assert(rejoined(fields, '/') =~= rest);
}

proof fn found_there(s: Seq<char>, pat: Seq<char>, from: int, at: int)
    requires
        0 <= from <= at,
        at + pat.len() <= s.len(),
        s.subrange(at, at + pat.len()) == pat,
        forall|i: int| from <= i < at ==> #[trigger] s.subrange(i, i + pat.len()) != pat,
    ensures
        found_at(s, pat, from) == Some(at),
    decreases at - from,
{
    if from < at {
        found_there(s, pat, from + 1, at);
    }
}

// ---- builds and proxies -------------------------------------------------

/// The build that is taken is the first whose name holds the platform's mark and
/// that can be downloaded.
pub proof fn the_first_build_for_the_platform(assets: Seq<Asset>, marker: Seq<char>, i: int)
    requires
        0 <= i < assets.len(),
        assets[i].name matches Some(name) && occurs(name@, marker),
        assets[i].url is Some,
        forall|k: int|
            0 <= k < i ==> (#[trigger] assets[k]).url is None || (assets[k].name matches Some(
                name,
            ) ==> !occurs(name@, marker)),
    ensures
        build_among(assets, marker) == Some(
            (
                assets[i].url->0@,
                match assets[i].size {
                    Some(size) => size,
                    None => 0,
                },
            ),
        ),
    decreases i,
{
    if i > 0 {
        assert(assets[0].url is None || (assets[0].name matches Some(name) ==> !occurs(
            name@,
            marker,
        )));
        let rest = assets.skip(1);
        assert(rest[i - 1] == assets[i]);
        assert forall|k: int| 0 <= k < i - 1 implies (#[trigger] rest[k]).url is None || (
        rest[k].name matches Some(name) ==> !occurs(name@, marker)) by {
            assert(rest[k] == assets[k + 1]);
        }
        the_first_build_for_the_platform(rest, marker, i - 1);
    }
}

/// The proxy is the first setting with anything in it, without the white space
/// around it.
pub proof fn the_first_proxy_that_is_set(values: Seq<Option<String>>, i: int)
    requires
        0 <= i < values.len(),
        values[i] matches Some(value) && trim(value@).len() > 0,
        forall|k: int|
            0 <= k < i ==> ((#[trigger] values[k]) matches Some(value) ==> trim(value@).len() == 0),
    ensures
        first_set(values) == Some(trim(values[i]->0@)),
    decreases i,
{
    if i > 0 {
        assert(values[0] matches Some(value) ==> trim(value@).len() == 0);
        let rest = values.skip(1);
        assert(rest[i - 1] == values[i]);
        assert forall|k: int| 0 <= k < i - 1 implies ((#[trigger] rest[k]) matches Some(value)
            ==> trim(value@).len() == 0) by {
            assert(rest[k] == values[k + 1]);
        }
        the_first_proxy_that_is_set(rest, i - 1);
    }
}

/// A proxy is named as it stands, or by protocol: the one for `https` before the
/// one for `http`, in whichever order they are listed.
pub proof fn a_proxy_is_named_by_protocol(plain: Seq<char>, secure: Seq<char>)
    requires
        solid(plain),
        solid(secure),
        !plain.contains(';') && !plain.contains('='),
        !secure.contains(';') && !secure.contains('='),
    ensures
        proxy_named(plain) == Some(plain),
        proxy_named("http="@ + plain + seq![';'] + "https="@ + secure) == Some(secure),
        proxy_named("https="@ + secure + seq![';'] + "http="@ + plain) == Some(secure),
        proxy_named("http="@ + plain) == Some(plain),
{
    reveal_strlit("http=");
    reveal_strlit("https=");
    let a = "http="@ + plain;
    let b = "https="@ + secure;
    none_there(plain, '=', 0);
    an_entry(plain, secure);
    let one = "http="@ + plain + seq![';'] + "https="@ + secure;
    let two = "https="@ + secure + seq![';'] + "http="@ + plain;
    let x = seq![a, b];
    let y = seq![b, a];
    fields_come_apart(x, ';');
    fields_come_apart(y, ';');
    fields_come_apart(seq![a], ';');
    reveal_with_fuel(rejoined, 3);
    assert(x.drop_last() =~= seq![a]);
    assert(y.drop_last() =~= seq![b]);
    assert(rejoined(x, ';') =~= one);
    assert(rejoined(y, ';') =~= two);
    assert(one[4] == '=' && two[5] == '=' && a[4] == '=');
    some_there(one, '=', 0, 4);
    some_there(two, '=', 0, 5);
    some_there(a, '=', 0, 4);
    reveal_with_fuel(entry_for, 4);
    assert(x.skip(1) =~= seq![b]);
    assert(y.skip(1) =~= seq![a]);
    assert(seq![a].skip(1) =~= Seq::empty());
    assert(seq![b].skip(1) =~= Seq::empty());
}

proof fn an_entry(plain: Seq<char>, secure: Seq<char>)
    requires
        solid(plain),
        solid(secure),
        !plain.contains(';'),
        !secure.contains(';'),
    ensures
        ({
            let a = "http="@ + plain;
            let b = "https="@ + secure;
            &&& trim(a) == a && trim(b) == b
            &&& behind(a, "http="@) == Some(plain) && behind(b, "https="@) == Some(secure)
            &&& behind(a, "https="@) is None && behind(b, "http="@) is None
            &&& !a.contains(';') && !b.contains(';')
        }),
{
    reveal_strlit("http=");
    reveal_strlit("https=");
    let a = "http="@ + plain;
    let b = "https="@ + secure;
    let nothing = Seq::<char>::empty();
    assert(a.last() == plain.last() && b.last() == secure.last() && a[0] == 'h' && b[0] == 'h');
    trimming_takes_off_what_is_around(nothing, a, nothing);
    trimming_takes_off_what_is_around(nothing, b, nothing);
    assert(nothing + a + nothing =~= a);
    assert(nothing + b + nothing =~= b);
    behind_a_prefix("http="@, plain, a);
    behind_a_prefix("https="@, secure, b);
    if a.len() >= 6 {
        assert(a.take(6)[4] == '=' && "https="@[4] == 's');
    }
    assert(b.take(5)[4] == 's' && "http="@[4] == '=');
    if a.contains(';') {
        let k = choose|k: int| 0 <= k < a.len() && a[k] == ';';
        assert(k >= 5 && plain[k - 5] == ';');
    }
    if b.contains(';') {
        let k = choose|k: int| 0 <= k < b.len() && b[k] == ';';
        assert(k >= 6 && secure[k - 6] == ';');
    }
}

proof fn none_there(s: Seq<char>, c: char, from: int)
    requires
        0 <= from,
        !s.contains(c),
    ensures
        first_at(s, c, from) is None,
    decreases s.len() - from,
{
    if from < s.len() {
        none_there(s, c, from + 1);
    }
}

proof fn some_there(s: Seq<char>, c: char, from: int, at: int)
    requires
        0 <= from <= at < s.len(),
        s[at] == c,
    ensures
        first_at(s, c, from) is Some,
    decreases at - from,
{
    if s[from] != c {
        some_there(s, c, from + 1, at);
    }
}

/// A proxy with credentials is `user:password@host`.
pub proof fn credentials_stand_before_the_host(
    host: Seq<char>,
    user: Seq<char>,
    password: Seq<char>,
)
    requires
        trim(host) == host,
        trim(user) == user,
    ensures
        spec_of(host, user, password) == user + seq![':'] + password + seq!['@'] + host,
{
}

// ---- exchanging builds --------------------------------------------------

/// Where every step succeeds, the downloaded build is in place, the one that was
/// running stands aside, and it was started.
pub proof fn a_swap_that_succeeds(files: Files)
    requires
        files.exe is Running,
        files.staged is Downloaded,
    ensures
        ({
            let (after, step) = swapped(files, Step::MoveAside, seq![true, true, true]);
            &&& step == Step::Done
            &&& after.exe is Downloaded
            &&& after.old is Running
            &&& after.staged is Nothing
        }),
        following(Step::MoveAside, false) == Step::Failed(Stage::MovingAside),
        following(Step::PutInPlace, false) == Step::PutBack(Stage::PuttingInPlace),
        following(Step::Start, false) == Step::TakeOut,
{
    reveal_with_fuel(swapped, 4);
    let all = seq![true, true, true];
    assert(all.skip(1) =~= seq![true, true]);
    assert(all.skip(1).skip(1) =~= seq![true]);
    assert(all.skip(1).skip(1).skip(1) =~= Seq::empty());
    assert(all[0] && all.skip(1)[0] && all.skip(1).skip(1)[0]);
}

/// A stroke at the end of an address says nothing, and neither does `.git`.
pub proof fn the_end_of_an_address_says_nothing(repository: Seq<char>)
    ensures
        latest_at(repository + seq!['/']) == latest_at(repository),
        repository.len() > 0 && repository.last() != '/' ==> latest_at(repository + ".git"@)
            == latest_at(repository),
{
    reveal_strlit(".git");
    let stroke = repository + seq!['/'];
    assert(stroke.skip(stroke.len() - 1) =~= seq!['/']);
    assert(stroke.take(stroke.len() - 1) =~= repository);
    let git = repository + ".git"@;
    assert(git.last() == 't');
    assert(git.skip(git.len() - 1)[0] == 't' && seq!['/'][0] == '/');
    assert(without_end(git, seq!['/']) == git);
    assert(git.skip(git.len() - 4) =~= ".git"@);
    assert(git.take(git.len() - 4) =~= repository);
    if repository.len() > 0 && repository.last() != '/' {
        assert(repository.skip(repository.len() - 1)[0] == repository.last());
        assert(without_end(repository, seq!['/']) == repository);
    }
}

/// What stands up to a pattern is what comes before it, or everything.
pub proof fn what_stands_up_to_a_pattern(s: Seq<char>, pat: Seq<char>)
    ensures
        !occurs(s, pat) ==> up_to(s, pat) == s,
        occurs(s, pat) ==> after(s, pat) is Some && s == up_to(s, pat) + pat + after(s, pat)->0,
{
    after_a_pattern(s, pat);
    finding(s, pat, 0);
    if occurs(s, pat) {
        let r = after(s, pat)->0;
        assert(s.take(s.len() - r.len() - pat.len()) == up_to(s, pat));
    }
}

} // verus!
