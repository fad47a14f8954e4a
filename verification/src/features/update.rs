//! Asking for a newer build, and what comes of the answer.
//!
//! Nothing is downloaded and nothing is replaced without being asked: the app
//! says a version is available, and the user decides. Talking to the network
//! and to the credential store is the caller's; what is asked, which proxy it
//! goes through, and what an answer means are decided here.
//!
//! Behind a corporate proxy this only works if it goes through it, so the
//! machine's own proxy settings are used. What they cannot tell is the
//! credentials, and a proxy can want them for the download while letting the
//! check through: release assets are served from a host of their own. That is
//! why a refusal says which of the two it was. Only Basic authentication is
//! spoken.

use vstd::prelude::*;

use crate::number::{read_unsigned, unsigned};
use crate::pty::session::Read;
use crate::text::{
    after, ascii_digit, behind, chars_of, contains, copied, decimal, digits, first_at, found_at,
    is_digit, occurs, search, split, split_chars, stands_at, strip, text_between, trim, trimmed,
    views,
};

verus! {

broadcast use vstd::seq_lib::group_seq_properties;

/// The version this build calls itself.
pub const CURRENT: &'static str = "0.1.0";

/// Where this is published from.
pub const REPOSITORY: &'static str = "https://github.com/ccsJoaoAzevedo/newIrisTerminal";

/// The account the proxy password is kept under, beside the profile passwords.
pub const PROXY_KEYRING_ACCOUNT: &'static str = "http-proxy";

/// The least a download can be and still be an executable.
pub const SMALLEST_BUILD: u64 = 1_000_000;

// ---- versions -----------------------------------------------------------

pub open spec fn is_v(c: char) -> bool {
    c == 'v' || c == 'V'
}

/// A text without the letters `v` it starts with.
pub open spec fn without_v(s: Seq<char>) -> Seq<char>
    decreases s.len(),
{
    if s.len() > 0 && is_v(s[0]) {
        without_v(s.skip(1))
    } else {
        s
    }
}

/// The digits a text starts with.
pub open spec fn leading_digits(s: Seq<char>) -> Seq<char>
    decreases s.len(),
{
    if s.len() > 0 && ascii_digit(s[0]) {
        seq![s[0]] + leading_digits(s.skip(1))
    } else {
        Seq::empty()
    }
}

pub open spec fn starts_a_suffix(c: char) -> bool {
    c == '-' || c == '+'
}

/// A version without what is added to it behind a `-` or a `+`.
pub open spec fn without_suffix(s: Seq<char>) -> Seq<char>
    decreases s.len(),
{
    if s.len() > 0 && !starts_a_suffix(s[0]) {
        seq![s[0]] + without_suffix(s.skip(1))
    } else {
        Seq::empty()
    }
}

/// The number each piece starts with, for the pieces that start with one.
pub open spec fn numbers(pieces: Seq<Seq<char>>) -> Seq<u64>
    decreases pieces.len(),
{
    if pieces.len() == 0 {
        Seq::empty()
    } else {
        let before = numbers(pieces.drop_last());
        match unsigned(leading_digits(pieces.last()), u64::MAX as int) {
            Some(n) => before.push(n as u64),
            None => before,
        }
    }
}

/// The numbers of a version.
pub open spec fn version_numbers(version: Seq<char>) -> Seq<u64> {
    numbers(split(without_suffix(without_v(trim(version))), '.'))
}

/// Number `i` of a version. A missing number counts as zero.
pub open spec fn at(numbers: Seq<u64>, i: int) -> u64 {
    if 0 <= i < numbers.len() {
        numbers[i]
    } else {
        0
    }
}

/// Whether the first number in which two versions differ is greater in `a`.
pub open spec fn later(a: Seq<u64>, b: Seq<u64>) -> bool {
    exists|i: int| #[trigger] differs_at(a, b, i) && at(a, i) > at(b, i)
}

/// Whether `i` is the first number in which two versions differ.
pub open spec fn differs_at(a: Seq<u64>, b: Seq<u64>, i: int) -> bool {
    &&& 0 <= i
    &&& at(a, i) != at(b, i)
    &&& forall|j: int| 0 <= j < i ==> #[trigger] at(a, j) == at(b, j)
}

/// Where the text behind the letters `v` starts.
fn skip_v(chars: &[char]) -> (start: usize)
    ensures
        start <= chars@.len(),
        without_v(chars@) == chars@.skip(start as int),
{
    let mut i: usize = 0;
    assert(chars@.skip(0) =~= chars@);
    while i < chars.len() && (chars[i] == 'v' || chars[i] == 'V')
        invariant
            i <= chars@.len(),
            without_v(chars@) == without_v(chars@.skip(i as int)),
        decreases chars.len() - i,
    {
        assert(chars@.skip(i as int).skip(1) =~= chars@.skip(i + 1));
        assert(chars@.skip(i as int)[0] == chars@[i as int]);
        i += 1;
    }
    assert(i < chars@.len() ==> chars@.skip(i as int)[0] == chars@[i as int]);
    i
}

proof fn leading_digits_are_a_prefix(s: Seq<char>, n: int)
    requires
        0 <= n <= s.len(),
        forall|k: int| 0 <= k < n ==> ascii_digit(#[trigger] s[k]),
        n < s.len() ==> !ascii_digit(s[n]),
    ensures
        leading_digits(s) == s.take(n),
    decreases n,
{
    if n > 0 {
        leading_digits_are_a_prefix(s.skip(1), n - 1);
        assert(seq![s[0]] + s.skip(1).take(n - 1) =~= s.take(n));
    } else {
        assert(s.take(0) =~= Seq::<char>::empty());
    }
}

proof fn without_suffix_is_a_prefix(s: Seq<char>, n: int)
    requires
        0 <= n <= s.len(),
        forall|k: int| 0 <= k < n ==> !starts_a_suffix(#[trigger] s[k]),
        n < s.len() ==> starts_a_suffix(s[n]),
    ensures
        without_suffix(s) == s.take(n),
    decreases n,
{
    if n > 0 {
        without_suffix_is_a_prefix(s.skip(1), n - 1);
        assert(seq![s[0]] + s.skip(1).take(n - 1) =~= s.take(n));
    } else {
        assert(s.take(0) =~= Seq::<char>::empty());
    }
}

/// The number a piece of a version starts with.
fn leading_number(piece: &Vec<char>) -> (n: Option<u64>)
    ensures
        match n {
            Some(n) => unsigned(leading_digits(piece@), u64::MAX as int) == Some(n as int),
            None => unsigned(leading_digits(piece@), u64::MAX as int) is None,
        },
{
    let mut end: usize = 0;
    while end < piece.len() && is_digit(piece[end])
        invariant
            end <= piece@.len(),
            forall|k: int| 0 <= k < end ==> ascii_digit(#[trigger] piece@[k]),
        decreases piece.len() - end,
    {
        end += 1;
    }
    proof {
        leading_digits_are_a_prefix(piece@, end as int);
        assert(piece@.subrange(0, end as int) =~= piece@.take(end as int));
    }
    read_unsigned(piece.as_slice(), 0, end, u64::MAX)
}

/// Splits a version into numbers, ignoring anything that is not one.
///
/// `v1.2.3-rc1` and `1.2.3` compare as the same three numbers: a pre-release
/// suffix is not something this project publishes, and guessing at an ordering
/// for one would be worse than ignoring it.
pub fn parts(version: &str) -> (parts: Vec<u64>)
    ensures
        parts@ == version_numbers(version@),
{
    let text = trimmed(version);
    let chars = chars_of(text.as_str());
    let start = skip_v(chars.as_slice());
    let mut end: usize = start;
    while end < chars.len() && !(chars[end] == '-' || chars[end] == '+')
        invariant
            start <= end <= chars@.len(),
            forall|k: int| start <= k < end ==> !starts_a_suffix(#[trigger] chars@[k]),
        decreases chars.len() - end,
    {
        end += 1;
    }
    let core = copied(chars.as_slice(), start, end);
    proof {
        without_suffix_is_a_prefix(chars@.skip(start as int), end - start);
        assert(core@ =~= chars@.skip(start as int).take(end - start));
    }
    let pieces = split_chars(core.as_slice(), '.');
    let ghost all = views(pieces@);
    let mut parts: Vec<u64> = Vec::new();
    let mut k: usize = 0;
    while k < pieces.len()
        invariant
            k <= pieces@.len(),
            all == views(pieces@),
            parts@ == numbers(all.take(k as int)),
        decreases pieces.len() - k,
    {
        assert(all.take(k + 1).drop_last() =~= all.take(k as int));
        assert(all.take(k + 1).last() == pieces@[k as int]@);
        if let Some(n) = leading_number(&pieces[k]) {
            parts.push(n);
        }
        k += 1;
    }
    assert(all.take(k as int) =~= all);
    parts
}

fn number_at(numbers: &Vec<u64>, i: usize) -> (n: u64)
    ensures
        n == at(numbers@, i as int),
{
    if i < numbers.len() {
        numbers[i]
    } else {
        0
    }
}

/// Whether `candidate` is a later version than `current`.
///
/// Compared number by number, with a missing number counting as zero, so `0.2`
/// is newer than `0.1.9` and the same as `0.2.0`.
pub fn is_newer(candidate: &str, current: &str) -> (newer: bool)
    ensures
        newer == later(version_numbers(candidate@), version_numbers(current@)),
{
    let a = parts(candidate);
    let b = parts(current);
    let len = if a.len() > b.len() {
        a.len()
    } else {
        b.len()
    };
    let mut i: usize = 0;
    while i < len
        invariant
            i <= len,
            len >= a@.len(),
            len >= b@.len(),
            a@ == version_numbers(candidate@),
            b@ == version_numbers(current@),
            forall|j: int| 0 <= j < i ==> #[trigger] at(a@, j) == at(b@, j),
        decreases len - i,
    {
        let x = number_at(&a, i);
        let y = number_at(&b, i);
        if x != y {
            assert(differs_at(a@, b@, i as int));
            proof {
                one_difference(a@, b@);
            }
            return x > y;
        }
        i += 1;
    }
    assert(forall|j: int| 0 <= j ==> #[trigger] at(a@, j) == at(b@, j));
    false
}

/// Two versions first differ in one place at most.
proof fn one_difference(a: Seq<u64>, b: Seq<u64>)
    ensures
        forall|i: int, j: int|
            #[trigger] differs_at(a, b, i) && #[trigger] differs_at(a, b, j) ==> i == j,
{
    assert forall|i: int, j: int|
        #[trigger] differs_at(a, b, i) && #[trigger] differs_at(a, b, j) implies i == j by {
        if i < j {
            assert(at(a, i) == at(b, i));
        } else if j < i {
            assert(at(a, j) == at(b, j));
        }
    }
}

// ---- where to ask -------------------------------------------------------

/// A text without what it ends with, however often.
pub open spec fn without_end(s: Seq<char>, end: Seq<char>) -> Seq<char>
    decreases s.len(),
{
    if end.len() > 0 && s.len() >= end.len() && s.skip(s.len() - end.len()) == end {
        without_end(s.take(s.len() - end.len()), end)
    } else {
        s
    }
}

/// A text up to where a pattern first stands in it.
pub open spec fn up_to(s: Seq<char>, pat: Seq<char>) -> Seq<char> {
    match found_at(s, pat, 0) {
        Some(i) => s.take(i),
        None => s,
    }
}

/// The owner and the name of the repository at an address, and whatever else
/// stands behind them.
pub open spec fn slug(repository: Seq<char>) -> Option<Seq<Seq<char>>> {
    let s = without_end(without_end(repository, seq!['/']), ".git"@);
    match after(s, "github.com/"@) {
        Some(rest) => Some(split(up_to(rest, "github.com/"@), '/')),
        None => None,
    }
}

/// Where the latest release of a repository is described.
pub open spec fn latest_at(repository: Seq<char>) -> Option<Seq<char>> {
    match slug(repository) {
        Some(pieces) => if pieces.len() >= 2 && pieces[0].len() > 0 && pieces[1].len() > 0 {
            Some(
                "https://api.github.com/repos/"@ + pieces[0] + seq!['/'] + pieces[1]
                    + "/releases/latest"@,
            )
        } else {
            None
        },
        None => None,
    }
}

/// Where a text ends without what it ends with.
fn strip_end(chars: &[char], to: usize, end: &[char]) -> (at: usize)
    requires
        to <= chars@.len(),
    ensures
        at <= to,
        chars@.take(at as int) == without_end(chars@.take(to as int), end@),
{
    let n = end.len();
    let mut at = to;
    while n > 0 && at >= n && stands_at(chars, at - n, end)
        invariant
            at <= to <= chars@.len(),
            n == end@.len(),
            without_end(chars@.take(at as int), end@) == without_end(chars@.take(to as int), end@),
        decreases at,
    {
        let ghost s = chars@.take(at as int);
        assert(s.skip(s.len() - n) =~= chars@.subrange(at - n, at as int));
        assert(s.take(s.len() - n) =~= chars@.take(at - n));
        at -= n;
    }
    proof {
        let s = chars@.take(at as int);
        if at >= n {
            assert(s.skip(s.len() - n) =~= chars@.subrange(at - n, at as int));
        }
    }
    at
}

/// Where releases are published, worked out from the repository rather than
/// written down a second time: an updater pointed at somebody else's
/// repository is worse than none. Nothing for an address that is not an owner
/// and a name: a path behind them would otherwise end up in the request.
pub fn releases_url(repository: &str) -> (url: Option<String>)
    ensures
        match url {
            Some(url) => latest_at(repository@) == Some(url@),
            None => latest_at(repository@) is None,
        },
{
    let chars = chars_of(repository);
    assert(chars@.take(chars@.len() as int) =~= repository@);
    let slash: Vec<char> = vec!['/'];
    assert(slash@ =~= seq!['/']);
    let git = chars_of(".git");
    let host = chars_of("github.com/");
    let end = strip_end(chars.as_slice(), chars.len(), slash.as_slice());
    let end = strip_end(chars.as_slice(), end, git.as_slice());
    let text = copied(chars.as_slice(), 0, end);
    assert(text@ =~= chars@.take(end as int));
    let start = match search(text.as_slice(), host.as_slice()) {
        Some(at) => at + host.len(),
        None => {
            return None;
        },
    };
    let rest = copied(text.as_slice(), start, text.len());
    assert(rest@ =~= text@.skip(start as int));
    let end = match search(rest.as_slice(), host.as_slice()) {
        Some(at) => at,
        None => rest.len(),
    };
    let slug = copied(rest.as_slice(), 0, end);
    assert(slug@ =~= up_to(rest@, host@));
    let pieces = split_chars(slug.as_slice(), '/');
    assert(views(pieces@).len() == pieces@.len());
    if pieces.len() < 2 {
        return None;
    }
    assert(views(pieces@)[0] == pieces@[0]@);
    assert(views(pieces@)[1] == pieces@[1]@);
    if pieces[0].len() == 0 || pieces[1].len() == 0 {
        return None;
    }
    let mut url = "https://api.github.com/repos/".to_owned();
    let owner = text_between(pieces[0].as_slice(), 0, pieces[0].len());
    let name = text_between(pieces[1].as_slice(), 0, pieces[1].len());
    url.append(owner.as_str());
    url.push('/');
    url.append(name.as_str());
    url.append("/releases/latest");
    assert(owner@ =~= pieces@[0]@);
    assert(name@ =~= pieces@[1]@);
    assert(url@ =~= "https://api.github.com/repos/"@ + pieces@[0]@ + seq!['/'] + pieces@[1]@
        + "/releases/latest"@);
    Some(url)
}

/// What a request says it comes from. It is refused without.
pub fn user_agent() -> (name: String)
    ensures
        name@ == "newIrisTerminal/"@ + CURRENT@,
{
    let mut name = "newIrisTerminal/".to_owned();
    name.append(CURRENT);
    name
}

// ---- the proxy ----------------------------------------------------------

/// The first of several settings that says anything, trimmed.
pub open spec fn first_set(values: Seq<Option<String>>) -> Option<Seq<char>>
    decreases values.len(),
{
    if values.len() == 0 {
        None
    } else {
        match values[0] {
            Some(value) if trim(value@).len() > 0 => Some(trim(value@)),
            _ => first_set(values.skip(1)),
        }
    }
}

/// The proxy of the environment, from its variables in the order they count.
pub fn proxy_of_environment(values: &[Option<String>]) -> (proxy: Option<String>)
    ensures
        match proxy {
            Some(proxy) => first_set(values@) == Some(proxy@),
            None => first_set(values@) is None,
        },
{
    let mut i: usize = 0;
    assert(values@.skip(0) =~= values@);
    while i < values.len()
        invariant
            i <= values@.len(),
            first_set(values@) == first_set(values@.skip(i as int)),
        decreases values.len() - i,
    {
        assert(values@.skip(i as int).skip(1) =~= values@.skip(i + 1));
        assert(values@.skip(i as int)[0] == values@[i as int]);
        if let Some(value) = &values[i] {
            let text = trimmed(value.as_str());
            if text.as_str().unicode_len() > 0 {
                return Some(text);
            }
        }
        i += 1;
    }
    assert(values@.skip(i as int).len() == 0);
    None
}

/// The first entry of a list that starts with a prefix, without it.
pub open spec fn entry_for(entries: Seq<Seq<char>>, prefix: Seq<char>) -> Option<Seq<char>>
    decreases entries.len(),
{
    if entries.len() == 0 {
        None
    } else if behind(trim(entries[0]), prefix) is Some {
        behind(trim(entries[0]), prefix)
    } else {
        entry_for(entries.skip(1), prefix)
    }
}

/// The proxy a setting names: either `host:port`, or a list with one for each
/// protocol, of which the one for `https` counts before the one for `http`.
pub open spec fn proxy_named(server: Seq<char>) -> Option<Seq<char>> {
    let entries = split(server, ';');
    if first_at(server, '=', 0) is None {
        Some(server)
    } else if entry_for(entries, "https="@) is Some {
        entry_for(entries, "https="@)
    } else {
        entry_for(entries, "http="@)
    }
}

fn find_entry(entries: &Vec<Vec<char>>, prefix: &str) -> (found: Option<String>)
    ensures
        match found {
            Some(found) => entry_for(views(entries@), prefix@) == Some(found@),
            None => entry_for(views(entries@), prefix@) is None,
        },
{
    let ghost all = views(entries@);
    let mut i: usize = 0;
    assert(all.skip(0) =~= all);
    while i < entries.len()
        invariant
            i <= entries@.len(),
            all == views(entries@),
            entry_for(all, prefix@) == entry_for(all.skip(i as int), prefix@),
        decreases entries.len() - i,
    {
        assert(all.skip(i as int).skip(1) =~= all.skip(i + 1));
        assert(all.skip(i as int)[0] == entries@[i as int]@);
        let whole = text_between(entries[i].as_slice(), 0, entries[i].len());
        assert(whole@ =~= entries@[i as int]@);
        let text = trimmed(whole.as_str());
        if let Some(rest) = strip(text.as_str(), prefix) {
            return Some(rest);
        }
        i += 1;
    }
    assert(all.skip(i as int).len() == 0);
    None
}

/// The proxy of the machine's settings.
pub fn proxy_of_settings(server: &str) -> (proxy: Option<String>)
    ensures
        match proxy {
            Some(proxy) => proxy_named(server@) == Some(proxy@),
            None => proxy_named(server@) is None,
        },
{
    let chars = chars_of(server);
    if crate::text::find(chars.as_slice(), '=').is_none() {
        return Some(server.to_owned());
    }
    let entries = split_chars(chars.as_slice(), ';');
    match find_entry(&entries, "https=") {
        Some(proxy) => Some(proxy),
        None => find_entry(&entries, "http="),
    }
}

/// The user and the password to show a proxy, given the password on file. Who
/// has no name has no credentials.
pub fn proxy_credentials(user: &str, password: Option<String>) -> (credentials: Option<
    (String, String),
>)
    ensures
        match credentials {
            Some((name, secret)) => {
                &&& trim(user@).len() > 0
                &&& name@ == trim(user@)
                &&& password == Some(secret)
            },
            None => trim(user@).len() == 0 || password is None,
        },
{
    let name = trimmed(user);
    if name.as_str().unicode_len() == 0 {
        return None;
    }
    match password {
        Some(secret) => Some((name, secret)),
        None => None,
    }
}

/// A proxy and what it is shown, on one line.
pub open spec fn spec_of(host: Seq<char>, user: Seq<char>, password: Seq<char>) -> Seq<char> {
    trim(user) + seq![':'] + password + seq!['@'] + trim(host)
}

/// The proxy as a client wants to be told about it: `user:password@host:port`.
///
/// The shape matters more than it looks. The credentials are split off at the
/// last `@` and the username at the first `:`, so a password holding either
/// character survives. A username holding one would not, and there is nothing
/// this can do about that: the format has no escaping.
pub fn proxy_spec(host: &str, credentials: Option<(String, String)>) -> (spec: String)
    ensures
        spec@ == match credentials {
            Some((user, password)) => spec_of(host@, user@, password@),
            None => trim(host@),
        },
{
    match credentials {
        Some((user, password)) => {
            let mut spec = trimmed(user.as_str());
            spec.push(':');
            spec.append(password.as_str());
            spec.push('@');
            spec.append(trimmed(host).as_str());
            assert(spec@ =~= spec_of(host@, user@, password@));
            spec
        },
        None => trimmed(host),
    }
}

/// What to say to a proxy that wants credentials.
///
/// Whoever provided none is not to be told that theirs are wrong.
pub fn proxy_hint(proxy: Option<String>, user: &str) -> (message: String)
    ensures
        ({
            let who = match proxy {
                Some(proxy) => proxy@,
                None => "the proxy"@,
            };
            message@ == if user@.len() == 0 {
                who
                    + " wants credentials for this host. Set the proxy user and password under Updates in Settings, or fetch the release from a browser."@
            } else {
                who + " rejected the credentials for "@ + user@
                    + ". Check the user and password under Updates in Settings; only Basic authentication is supported, not NTLM."@
            }
        }),
{
    let mut message = match proxy {
        Some(proxy) => proxy,
        None => "the proxy".to_owned(),
    };
    if user.unicode_len() == 0 {
        message.append(
            " wants credentials for this host. Set the proxy user and password under Updates in Settings, or fetch the release from a browser.",
        );
    } else {
        message.append(" rejected the credentials for ");
        message.append(user);
        message.append(
            ". Check the user and password under Updates in Settings; only Basic authentication is supported, not NTLM.",
        );
    }
    message
}

// ---- the answer ---------------------------------------------------------

/// A published release, reduced to what the app does something with.
#[derive(Clone, Debug, PartialEq, Eq)]
pub struct Release {
    /// As published, `v` stripped: `0.2.0`.
    pub version: String,
    /// Direct download for this platform's executable.
    pub download: String,
    /// How big that download is. `0` when the release does not say.
    pub size: u64,
    /// What the release says about itself, for the dialog.
    pub notes: String,
}

/// A file of a release, as far as it is described.
pub struct Asset {
    pub name: Option<String>,
    pub url: Option<String>,
    pub size: Option<u64>,
}

/// A release as it is published, as far as it is described.
pub struct Published {
    pub tag: Option<String>,
    pub assets: Vec<Asset>,
    pub notes: Option<String>,
}

/// Why a release is of no use.
pub enum NoRelease {
    NoTag,
    /// There is nothing in this version for this platform.
    NoBuild(String),
}

impl NoRelease {
    pub fn message(&self) -> (text: String)
        ensures
            text@ == match *self {
                NoRelease::NoTag => "the release has no tag"@,
                NoRelease::NoBuild(version) => "release "@ + version@
                    + " has no build for this platform"@,
            },
    {
        match self {
            NoRelease::NoTag => "the release has no tag".to_owned(),
            NoRelease::NoBuild(version) => {
                let mut text = "release ".to_owned();
                text.append(version.as_str());
                text.append(" has no build for this platform");
                text
            },
        }
    }
}

/// What a build runs on.
#[derive(Clone, Copy, Debug, PartialEq, Eq, Structural)]
pub enum Platform {
    Windows,
    MacOs,
    Other,
}

/// The file name fragment that marks an asset as a platform's build.
pub fn asset_marker(platform: Platform) -> (marker: &'static str)
    ensures
        marker@ == match platform {
            Platform::Windows => ".exe"@,
            Platform::MacOs => "macos"@,
            Platform::Other => "linux"@,
        },
{
    match platform {
        Platform::Windows => ".exe",
        Platform::MacOs => "macos",
        Platform::Other => "linux",
    }
}

/// Whether an asset is a build that can be downloaded.
pub open spec fn is_build(asset: Asset, marker: Seq<char>) -> bool {
    asset.name matches Some(name) && occurs(name@, marker) && asset.url is Some
}

/// The first build among some assets: where it is, and how big.
pub open spec fn build_among(assets: Seq<Asset>, marker: Seq<char>) -> Option<(Seq<char>, u64)>
    decreases assets.len(),
{
    if assets.len() == 0 {
        None
    } else if is_build(assets[0], marker) {
        Some(
            (
                assets[0].url->0@,
                match assets[0].size {
                    Some(size) => size,
                    None => 0,
                },
            ),
        )
    } else {
        build_among(assets.skip(1), marker)
    }
}

fn find_build(assets: &Vec<Asset>, marker: &str) -> (found: Option<(String, u64)>)
    ensures
        match found {
            Some((url, size)) => build_among(assets@, marker@) == Some((url@, size)),
            None => build_among(assets@, marker@) is None,
        },
{
    let pat = chars_of(marker);
    let mut i: usize = 0;
    assert(assets@.skip(0) =~= assets@);
    while i < assets.len()
        invariant
            i <= assets@.len(),
            pat@ == marker@,
            build_among(assets@, marker@) == build_among(assets@.skip(i as int), marker@),
        decreases assets.len() - i,
    {
        assert(assets@.skip(i as int).skip(1) =~= assets@.skip(i + 1));
        assert(assets@.skip(i as int)[0] == assets@[i as int]);
        let asset = &assets[i];
        if let Some(name) = &asset.name {
            let chars = chars_of(name.as_str());
            if contains(chars.as_slice(), pat.as_slice()) {
                if let Some(url) = &asset.url {
                    let size = match asset.size {
                        Some(size) => size,
                        None => 0,
                    };
                    return Some((url.clone(), size));
                }
            }
        }
        i += 1;
    }
    assert(assets@.skip(i as int).len() == 0);
    None
}

/// Reads a release as it is published, for a platform whose builds are marked.
/// A release without a tag, or without a build for the platform, is of no use;
/// one that does not say how big the build is, is.
pub fn read_release(published: &Published, marker: &str) -> (release: Result<Release, NoRelease>)
    ensures
        match release {
            Ok(release) => {
                &&& published.tag matches Some(tag) && release.version@ == without_v(tag@)
                &&& build_among(published.assets@, marker@) == Some(
                    (release.download@, release.size),
                )
                &&& release.notes@ == match published.notes {
                    Some(notes) => trim(notes@),
                    None => Seq::empty(),
                }
            },
            Err(NoRelease::NoTag) => published.tag is None,
            Err(NoRelease::NoBuild(version)) => {
                &&& published.tag matches Some(tag) && version@ == without_v(tag@)
                &&& build_among(published.assets@, marker@) is None
            },
        },
{
    let version = match &published.tag {
        Some(tag) => {
            let chars = chars_of(tag.as_str());
            let start = skip_v(chars.as_slice());
            let version = text_between(chars.as_slice(), start, chars.len());
            assert(version@ =~= chars@.skip(start as int));
            version
        },
        None => {
            return Err(NoRelease::NoTag);
        },
    };
    let (download, size) = match find_build(&published.assets, marker) {
        Some(found) => found,
        None => {
            return Err(NoRelease::NoBuild(version));
        },
    };
    let notes = match &published.notes {
        Some(notes) => trimmed(notes.as_str()),
        None => String::new(),
    };
    Ok(Release { version, download, size, notes })
}

/// What the background thread has to say.
#[derive(Clone, Debug)]
pub enum Event {
    /// A newer release exists.
    Available(Release),
    /// The check ran and this is already the newest build.
    UpToDate,
    /// The new executable has been downloaded to this path.
    Downloaded(String),
    /// The check or the download failed. Never fatal: the app carries on.
    Failed(String),
}

/// What a check comes to for a build of version `current`.
pub fn verdict(latest: Result<Release, String>, current: &str) -> (event: Event)
    ensures
        event == match latest {
            Ok(release) => if later(version_numbers(release.version@), version_numbers(current@)) {
                Event::Available(release)
            } else {
                Event::UpToDate
            },
            Err(why) => Event::Failed(why),
        },
{
    match latest {
        Ok(release) => if is_newer(release.version.as_str(), current) {
            Event::Available(release)
        } else {
            Event::UpToDate
        },
        Err(why) => Event::Failed(why),
    }
}

/// Whether what arrived is enough to be an executable, and what to say if not.
///
/// A truncated download that still parsed as a file would be swapped in and
/// then refuse to start, which is the one failure with no way back.
pub fn whole(copied: u64) -> (size: Result<u64, String>)
    ensures
        match size {
            Ok(size) => copied >= SMALLEST_BUILD && size == copied,
            Err(why) => {
                &&& copied < SMALLEST_BUILD
                &&& why@ == "the download stopped after "@ + digits(copied as nat) + " bytes"@
            },
        },
{
    if copied < SMALLEST_BUILD {
        let mut why = "the download stopped after ".to_owned();
        why.append(decimal(copied).as_str());
        why.append(" bytes");
        return Err(why);
    }
    Ok(copied)
}

/// A download on its way into a file, and how far it has got.
pub struct Copying {
    pub total: u64,
}

/// What is to be done about a read of it.
pub enum Copied {
    /// Write this, and go on.
    Write(Vec<u8>),
    /// Read again.
    Again,
    /// Everything is there.
    Done,
    Failed,
}

impl Copying {
    pub fn new() -> (copying: Self)
        ensures
            copying.total == 0,
    {
        Copying { total: 0 }
    }

    /// Takes in a read. The total says how far the download has got while it is
    /// going, not once at the end: what it feeds is a progress bar.
    pub fn take(&mut self, read: Read) -> (copied: Copied)
        ensures
            match read {
                Read::Bytes(bytes) => if bytes@.len() == 0 {
                    copied is Done && final(self).total == old(self).total
                } else {
                    &&& copied matches Copied::Write(chunk) && chunk@ == bytes@
                    &&& final(self).total == if old(self).total + bytes@.len() > u64::MAX {
                        u64::MAX as int
                    } else {
                        old(self).total + bytes@.len()
                    }
                },
                Read::Interrupted => copied is Again && final(self).total == old(self).total,
                Read::Failed => copied is Failed && final(self).total == old(self).total,
            },
    {
        match read {
            Read::Bytes(bytes) => if bytes.len() == 0 {
                Copied::Done
            } else {
                self.total = self.total.saturating_add(bytes.len() as u64);
                Copied::Write(bytes)
            },
            Read::Interrupted => Copied::Again,
            Read::Failed => Copied::Failed,
        }
    }
}

/// Where a download waits to be put in place: beside the executable, because
/// the swap is a rename and a rename only works within one filesystem.
pub fn staged_path(exe: &str) -> (path: String)
    ensures
        path@ == exe@ + ".new"@,
{
    let mut path = exe.to_owned();
    path.append(".new");
    path
}

/// Where a replaced executable is parked until the next start.
pub fn old_path(exe: &str) -> (path: String)
    ensures
        path@ == exe@ + ".old"@,
{
    let mut path = exe.to_owned();
    path.append(".old");
    path
}

// ---- laws ---------------------------------------------------------------

/// The check runs at every start, so a version is never newer than itself.
pub proof fn no_version_is_newer_than_itself(a: Seq<u64>)
    ensures
        !later(a, a),
{
}

/// Of two versions at most one is newer than the other.
pub proof fn an_update_is_not_undone(a: Seq<u64>, b: Seq<u64>)
    requires
        later(a, b),
    ensures
        !later(b, a),
{
    let i = choose|i: int| #[trigger] differs_at(a, b, i) && at(a, i) > at(b, i);
    if later(b, a) {
        let j = choose|j: int| #[trigger] differs_at(b, a, j) && at(b, j) > at(a, j);
        assert(differs_at(a, b, j)) by {
            assert forall|k: int| 0 <= k < j implies #[trigger] at(a, k) == at(b, k) by {
                assert(at(b, k) == at(a, k));
            }
        }
        one_difference(a, b);
    }
}

/// What is newer than a newer version is newer.
pub proof fn newer_is_transitive(a: Seq<u64>, b: Seq<u64>, c: Seq<u64>)
    requires
        later(a, b),
        later(b, c),
    ensures
        later(a, c),
{
    let i = choose|i: int| #[trigger] differs_at(a, b, i) && at(a, i) > at(b, i);
    let j = choose|j: int| #[trigger] differs_at(b, c, j) && at(b, j) > at(c, j);
    let k = if i < j {
        i
    } else {
        j
    };
    assert(differs_at(a, c, k)) by {
        assert(at(a, k) >= at(b, k) && at(b, k) >= at(c, k));
        assert forall|n: int| 0 <= n < k implies #[trigger] at(a, n) == at(c, n) by {
            assert(at(a, n) == at(b, n));
            assert(at(b, n) == at(c, n));
        }
    }
}

/// A missing number is a zero.
pub proof fn a_trailing_zero_says_nothing(a: Seq<u64>, b: Seq<u64>)
    ensures
        later(a.push(0), b) == later(a, b),
        later(b, a.push(0)) == later(b, a),
{
    let z = a.push(0);
    assert(forall|i: int| #[trigger] at(z, i) == at(a, i));
    assert(forall|i: int| #[trigger] differs_at(z, b, i) == differs_at(a, b, i)) by {
        assert forall|i: int| #[trigger] differs_at(z, b, i) == differs_at(a, b, i) by {
            assert(forall|j: int| (#[trigger] at(z, j) == at(b, j)) == (at(a, j) == at(b, j)));
            assert(forall|j: int| (#[trigger] at(a, j) == at(b, j)) == (at(z, j) == at(b, j)));
        }
    }
    assert(forall|i: int| #[trigger] differs_at(b, z, i) == differs_at(b, a, i)) by {
        assert forall|i: int| #[trigger] differs_at(b, z, i) == differs_at(b, a, i) by {
            assert(forall|j: int| (#[trigger] at(b, j) == at(z, j)) == (at(b, j) == at(a, j)));
        }
    }
    if later(a, b) {
        let i = choose|i: int| #[trigger] differs_at(a, b, i) && at(a, i) > at(b, i);
        assert(differs_at(z, b, i));
    }
    if later(b, a) {
        let i = choose|i: int| #[trigger] differs_at(b, a, i) && at(b, i) > at(a, i);
        assert(differs_at(b, z, i));
    }
}

/// Whatever is added to a version behind a `-` or a `+` changes nothing: the two
/// compare as the same numbers.
pub proof fn a_suffix_is_ignored(version: Seq<char>, suffix: Seq<char>)
    requires
        trim(version) == version,
        trim(version + suffix) == version + suffix,
        suffix.len() > 0,
        starts_a_suffix(suffix[0]),
    ensures
        version_numbers(version + suffix) == version_numbers(version),
{
    without_v_of_more(version, suffix);
    without_suffix_of_more(without_v(version), suffix);
}

proof fn without_v_of_more(s: Seq<char>, suffix: Seq<char>)
    requires
        suffix.len() > 0,
        !is_v(suffix[0]),
    ensures
        without_v(s + suffix) == without_v(s) + suffix,
    decreases s.len(),
{
    if s.len() > 0 {
        assert((s + suffix)[0] == s[0]);
        if is_v(s[0]) {
            without_v_of_more(s.skip(1), suffix);
            assert((s + suffix).skip(1) =~= s.skip(1) + suffix);
        }
    } else {
        assert(s + suffix =~= suffix);
    }
}

proof fn without_suffix_of_more(s: Seq<char>, suffix: Seq<char>)
    requires
        suffix.len() > 0,
        starts_a_suffix(suffix[0]),
    ensures
        without_suffix(s + suffix) == without_suffix(s),
    decreases s.len(),
{
    if s.len() > 0 {
        assert((s + suffix)[0] == s[0]);
        if !starts_a_suffix(s[0]) {
            without_suffix_of_more(s.skip(1), suffix);
            assert((s + suffix).skip(1) =~= s.skip(1) + suffix);
        }
    } else {
        assert(s + suffix =~= suffix);
    }
}

/// A tag without a number in it is never an update, so it is not offered on
/// every start.
pub proof fn nonsense_is_no_update(candidate: Seq<char>, current: Seq<u64>)
    requires
        version_numbers(candidate).len() == 0,
    ensures
        !later(version_numbers(candidate), current),
{
}

/// Whatever characters a password has in it, it is found again between the
/// first colon and the last at sign, as long as there is no colon in the name
/// and no at sign in the host.
pub proof fn credentials_survive(host: Seq<char>, user: Seq<char>, password: Seq<char>)
    requires
        !trim(user).contains(':'),
        !trim(host).contains('@'),
    ensures
        ({
            let spec = spec_of(host, user, password);
            let colon = trim(user).len() as int;
            let sign = colon + 1 + password.len();
            &&& first_at(spec, ':', 0) == Some(colon)
            &&& 0 <= sign < spec.len() && spec[sign] == '@'
            &&& forall|i: int| sign < i < spec.len() ==> #[trigger] spec[i] != '@'
            &&& spec.take(colon) == trim(user)
            &&& spec.subrange(colon + 1, sign) == password
            &&& spec.skip(sign + 1) == trim(host)
        }),
{
    let spec = spec_of(host, user, password);
    let colon = trim(user).len() as int;
    let sign = colon + 1 + password.len();
    assert forall|i: int| 0 <= i < colon implies #[trigger] spec[i] != ':' by {
        assert(spec[i] == trim(user)[i]);
    }
    first_is(spec, ':', 0, colon);
    assert forall|i: int| sign < i < spec.len() implies #[trigger] spec[i] != '@' by {
        assert(spec[i] == trim(host)[i - sign - 1]);
    }
    assert(spec.take(colon) =~= trim(user));
    assert(spec.subrange(colon + 1, sign) =~= password);
    assert(spec.skip(sign + 1) =~= trim(host));
}

proof fn first_is(s: Seq<char>, c: char, from: int, at: int)
    requires
        0 <= from <= at < s.len(),
        s[at] == c,
        forall|i: int| from <= i < at ==> #[trigger] s[i] != c,
    ensures
        first_at(s, c, from) == Some(at),
    decreases at - from,
{
    if from < at {
        first_is(s, c, from + 1, at);
    }
}

} // verus!
