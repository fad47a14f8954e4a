//! Looking up a global's piece structure, for the piece tooltip.
//!
//! The question is asked down a session of its own, and never down the one the
//! user is looking at: the decision that a prompt is idle and the moment the
//! bytes actually go out are separated by however long it takes the session to
//! next say something, and the user types in between.
//!
//! The query asks for structure only, never for a specific record's value. That
//! is what makes the answer cacheable per namespace and global: the first hover
//! on a global is the only one that ever has to ask.

use vstd::prelude::*;

use crate::calendar::{
    a_day_is_shown_one_way, date_after, day_number, last_day, shows_day,
    the_last_day_is_in_reach,
};
use crate::number::{
    group_thousands, grouped, is_digits, padded, push_padded, read_signed, read_unsigned, signed,
    unsigned, value,
};
use crate::text::{
    ascii_alnum, ascii_digit, chars_of, count, count_in, cut_once, decimal, digits, end_of_trimmed,
    find, is_alnum, is_digit, opt_text, pieces_and_separators, same, split, split_chars, stands_at,
    start_of_trimmed, text_of, texts, trim, views,
};

verus! {

// ---- what is known about a global ---------------------------------------

/// One piece of a global's value, as IRIS documents it.
#[derive(Clone, Debug, PartialEq, Eq)]
pub struct PieceInfo {
    /// 1-based, matching `$piece` numbering over `^`.
    pub piece: usize,
    /// Which run of `sub_delim` inside that piece this describes, for a piece
    /// the map subdivides again: IRIS writes the pair `12,1`. `None` for a
    /// piece that is not subdivided.
    pub sub: Option<usize>,
    /// The delimiter that subdivision uses (`;`, `,`). Carried per piece
    /// because it is declared per piece, not per map.
    pub sub_delim: Option<char>,
    pub description: String,
    /// As IRIS reports it: a bare width (`"5"`) or, for a scaled numeric type,
    /// `"total,decimals"` (`"5,2"`).
    pub size: String,
    /// The data type class name, e.g. `%Date`, `DataType.Valor`.
    pub kind: String,
    /// `(raw value, label)` pairs, from the property's display list. Empty when
    /// the property has none.
    pub value_list: Vec<(String, String)>,
}

/// A [`PieceInfo`] as a mathematical value.
#[verifier::ext_equal]
pub struct PieceState {
    pub piece: int,
    pub sub: Option<int>,
    pub sub_delim: Option<char>,
    pub description: Seq<char>,
    pub size: Seq<char>,
    pub kind: Seq<char>,
    pub value_list: Seq<(Seq<char>, Seq<char>)>,
}

pub open spec fn pairs(list: Seq<(String, String)>) -> Seq<(Seq<char>, Seq<char>)> {
    list.map_values(|p: (String, String)| (p.0@, p.1@))
}

impl View for PieceInfo {
    type V = PieceState;

    open spec fn view(&self) -> PieceState {
        PieceState {
            piece: self.piece as int,
            sub: match self.sub {
                Some(sub) => Some(sub as int),
                None => None,
            },
            sub_delim: self.sub_delim,
            description: self.description@,
            size: self.size@,
            kind: self.kind@,
            value_list: pairs(self.value_list@),
        }
    }
}

impl PieceInfo {
    /// How IRIS itself writes this piece's number: `12`, or `12,1` for one run
    /// of a subdivided piece.
    pub fn label(&self) -> (label: String)
        ensures
            label@ == match self@.sub {
                Some(sub) => digits(self@.piece as nat) + seq![','] + digits(sub as nat),
                None => digits(self@.piece as nat),
            },
    {
        let mut label = decimal(self.piece as u64);
        if let Some(sub) = self.sub {
            label.push(',');
            label.append(decimal(sub as u64).as_str());
            assert(label@ =~= digits(self@.piece as nat) + seq![','] + digits(sub as nat));
        }
        label
    }
}

/// One class's data map for a global: the subscript shape it claims, and what
/// the pieces of a row under that shape mean.
///
/// A global is mapped by as many classes as it has subscript shapes, and taking
/// the first one would describe the wrong row every time but one.
#[derive(Clone, Debug, PartialEq, Eq)]
pub struct MapInfo {
    /// How many subscripts a row under this map has.
    pub keys: usize,
    /// The subscripts that are constants, 1-based position and value. These are
    /// what tell two maps of the same depth apart.
    pub fixed: Vec<(usize, String)>,
    pub pieces: Vec<PieceInfo>,
}

impl Default for MapInfo {
    fn default() -> (map: Self)
        ensures
            map.keys == 0,
            map.fixed@ == Seq::<(usize, String)>::empty(),
            map.pieces@ == Seq::<PieceInfo>::empty(),
    {
        MapInfo { keys: 0, fixed: Vec::new(), pieces: Vec::new() }
    }
}

/// A [`MapInfo`] as a mathematical value.
#[verifier::ext_equal]
pub struct MapState {
    pub keys: int,
    pub fixed: Seq<(int, Seq<char>)>,
    pub pieces: Seq<PieceState>,
}

pub open spec fn piece_states(pieces: Seq<PieceInfo>) -> Seq<PieceState> {
    pieces.map_values(|p: PieceInfo| p@)
}

pub open spec fn fixed_states(fixed: Seq<(usize, String)>) -> Seq<(int, Seq<char>)> {
    fixed.map_values(|f: (usize, String)| (f.0 as int, f.1@))
}

impl View for MapInfo {
    type V = MapState;

    open spec fn view(&self) -> MapState {
        MapState {
            keys: self.keys as int,
            fixed: fixed_states(self.fixed@),
            pieces: piece_states(self.pieces@),
        }
    }
}

pub open spec fn map_states(maps: Seq<MapInfo>) -> Seq<MapState> {
    maps.map_values(|m: MapInfo| m@)
}

impl MapState {
    /// Whether a row with these subscripts is one this map describes: as many
    /// of them as it has keys, and the constant ones in their places.
    pub open spec fn describes(self, subscripts: Seq<Seq<char>>) -> bool {
        &&& subscripts.len() == self.keys
        &&& forall|i: int|
            0 <= i < self.fixed.len() ==> {
                let (at, value) = #[trigger] self.fixed[i];
                1 <= at <= subscripts.len() && subscripts[at - 1] == value
            }
    }
}

impl MapInfo {
    fn matches(&self, subscripts: &[String]) -> (yes: bool)
        ensures
            yes == self@.describes(texts(subscripts@)),
    {
        if subscripts.len() != self.keys {
            return false;
        }
        let mut i: usize = 0;
        while i < self.fixed.len()
            invariant
                i <= self.fixed@.len(),
                subscripts@.len() == self.keys,
                forall|k: int|
                    0 <= k < i ==> {
                        let (at, value) = #[trigger] self@.fixed[k];
                        1 <= at <= subscripts@.len() && texts(subscripts@)[at - 1] == value
                    },
            decreases self.fixed.len() - i,
        {
            let at = self.fixed[i].0;
            assert(self@.fixed[i as int] == (at as int, self.fixed@[i as int].1@));
            if at < 1 || at > subscripts.len() {
                return false;
            }
            assert(texts(subscripts@)[at - 1] == subscripts@[at - 1]@);
            if !same(subscripts[at - 1].as_str(), self.fixed[i].1.as_str()) {
                return false;
            }
            i += 1;
        }
        true
    }
}

// ---- what a piece of a row means ----------------------------------------

/// What a hovered piece means, once the maps are known: the description, and
/// the piece's own text narrowed to the sub-piece the pointer is actually in.
pub struct Described<'a> {
    pub info: &'a PieceInfo,
    /// The value to format and show: the whole piece, or just the run of it
    /// under the pointer where the piece is subdivided.
    pub raw: String,
}

/// The first map that describes a row with these subscripts.
pub open spec fn map_for(maps: Seq<MapState>, subscripts: Seq<Seq<char>>) -> Option<MapState>
    decreases maps.len(),
{
    if maps.len() == 0 {
        None
    } else if maps[0].describes(subscripts) {
        Some(maps[0])
    } else {
        map_for(maps.skip(1), subscripts)
    }
}

/// What is said of piece `n`.
pub open spec fn said_of(pieces: Seq<PieceState>, n: int) -> Seq<PieceState>
    decreases pieces.len(),
{
    if pieces.len() == 0 {
        Seq::empty()
    } else if pieces.last().piece == n {
        said_of(pieces.drop_last(), n).push(pieces.last())
    } else {
        said_of(pieces.drop_last(), n)
    }
}

/// The first delimiter that any of them gives.
pub open spec fn delimiter(pieces: Seq<PieceState>) -> Option<char>
    decreases pieces.len(),
{
    if pieces.len() == 0 {
        None
    } else if pieces[0].sub_delim is Some {
        pieces[0].sub_delim
    } else {
        delimiter(pieces.skip(1))
    }
}

/// The first of them that describes run `sub`.
pub open spec fn of_run(pieces: Seq<PieceState>, sub: int) -> Option<PieceState>
    decreases pieces.len(),
{
    if pieces.len() == 0 {
        None
    } else if pieces[0].sub == Some(sub) {
        Some(pieces[0])
    } else {
        of_run(pieces.skip(1), sub)
    }
}

/// Which run of the delimiter a column of a piece is in, counting from one.
pub open spec fn run_at(text: Seq<char>, delim: char, offset: int) -> int {
    1int + count(
        text.take(
            if offset <= text.len() {
                offset
            } else {
                text.len() as int
            },
        ),
        delim,
    )
}

/// What the piece under a selection means, and which part of its text that is
/// said of.
pub open spec fn meaning(
    maps: Seq<MapState>,
    subscripts: Seq<Seq<char>>,
    piece: int,
    text: Seq<char>,
    offset: int,
) -> Option<(PieceState, Seq<char>)> {
    match map_for(maps, subscripts) {
        None => None,
        Some(map) => {
            let said = said_of(map.pieces, piece);
            if said.len() == 1 && said[0].sub is None {
                Some((said[0], text))
            } else {
                match delimiter(said) {
                    None => None,
                    Some(delim) => {
                        let sub = run_at(text, delim, offset);
                        match of_run(said, sub) {
                            None => None,
                            Some(info) => Some((info, split(text, delim)[sub - 1])),
                        }
                    },
                }
            }
        },
    }
}

/// The states behind references to pieces.
pub open spec fn referred(pieces: Seq<&PieceInfo>) -> Seq<PieceState> {
    pieces.map_values(|p: &PieceInfo| p@)
}

fn find_map<'a>(maps: &'a [MapInfo], subscripts: &[String]) -> (map: Option<&'a MapInfo>)
    ensures
        match map {
            Some(map) => map_for(map_states(maps@), texts(subscripts@)) == Some(map@),
            None => map_for(map_states(maps@), texts(subscripts@)) is None,
        },
{
    let ghost want = map_states(maps@);
    let ghost subs = texts(subscripts@);
    let mut i: usize = 0;
    assert(want.skip(0) =~= want);
    while i < maps.len()
        invariant
            i <= maps@.len(),
            want == map_states(maps@),
            subs == texts(subscripts@),
            map_for(want, subs) == map_for(want.skip(i as int), subs),
        decreases maps.len() - i,
    {
        assert(want.skip(i as int).skip(1) =~= want.skip(i + 1));
        if maps[i].matches(subscripts) {
            return Some(&maps[i]);
        }
        i += 1;
    }
    None
}

fn find_said<'a>(map: &'a MapInfo, n: usize) -> (said: Vec<&'a PieceInfo>)
    ensures
        referred(said@) == said_of(map@.pieces, n as int),
{
    let ghost want = map@.pieces;
    let mut said: Vec<&'a PieceInfo> = Vec::new();
    let mut i: usize = 0;
    assert(want.take(0) =~= Seq::empty());
    assert(referred(said@) =~= Seq::empty());
    while i < map.pieces.len()
        invariant
            i <= map.pieces@.len(),
            want == map@.pieces,
            referred(said@) == said_of(want.take(i as int), n as int),
        decreases map.pieces.len() - i,
    {
        assert(want.take(i + 1).drop_last() =~= want.take(i as int));
        let p = &map.pieces[i];
        if p.piece == n {
            let ghost before = referred(said@);
            said.push(p);
            assert(referred(said@) =~= before.push(p@));
        }
        i += 1;
    }
    assert(want.take(i as int) =~= want);
    said
}

fn find_delimiter(said: &Vec<&PieceInfo>) -> (delim: Option<char>)
    ensures
        delim == delimiter(referred(said@)),
{
    let ghost want = referred(said@);
    let mut i: usize = 0;
    assert(want.skip(0) =~= want);
    while i < said.len()
        invariant
            i <= said@.len(),
            want == referred(said@),
            delimiter(want) == delimiter(want.skip(i as int)),
        decreases said.len() - i,
    {
        assert(want.skip(i as int).skip(1) =~= want.skip(i + 1));
        if said[i].sub_delim.is_some() {
            return said[i].sub_delim;
        }
        i += 1;
    }
    None
}

fn find_run<'a>(said: &Vec<&'a PieceInfo>, sub: usize) -> (info: Option<&'a PieceInfo>)
    ensures
        match info {
            Some(info) => of_run(referred(said@), sub as int) == Some(info@),
            None => of_run(referred(said@), sub as int) is None,
        },
{
    let ghost want = referred(said@);
    let mut i: usize = 0;
    assert(want.skip(0) =~= want);
    while i < said.len()
        invariant
            i <= said@.len(),
            want == referred(said@),
            of_run(want, sub as int) == of_run(want.skip(i as int), sub as int),
        decreases said.len() - i,
    {
        assert(want.skip(i as int).skip(1) =~= want.skip(i + 1));
        assert(want[i as int] == said@[i as int]@);
        match said[i].sub {
            Some(s) => if s == sub {
                return Some(said[i]);
            },
            None => {},
        }
        i += 1;
    }
    None
}

/// The piece under a selection, picked out of every map the global has.
///
/// `subscripts`, `piece`, `piece_text` and `offset` are what was read off the
/// row.
pub fn describe<'a>(
    maps: &'a [MapInfo],
    subscripts: &[String],
    piece: usize,
    piece_text: &str,
    offset: usize,
) -> (found: Option<Described<'a>>)
    ensures
        match found {
            Some(d) => meaning(
                map_states(maps@),
                texts(subscripts@),
                piece as int,
                piece_text@,
                offset as int,
            ) == Some((d.info@, d.raw@)),
            None => meaning(
                map_states(maps@),
                texts(subscripts@),
                piece as int,
                piece_text@,
                offset as int,
            ) is None,
        },
{
    let map = match find_map(maps, subscripts) {
        Some(map) => map,
        None => return None,
    };
    let said = find_said(map, piece);
    // Not subdivided: one entry, and the whole piece is the value.
    if said.len() == 1 && said[0].sub.is_none() {
        assert(referred(said@)[0] == said@[0]@);
        return Some(Described { info: said[0], raw: piece_text.to_owned() });
    }
    proof {
        if said@.len() == 1 {
            assert(referred(said@)[0] == said@[0]@);
        }
    }
    let delim = match find_delimiter(&said) {
        Some(delim) => delim,
        None => return None,
    };
    // Which run of the delimiter the selection started in, 1-based: the same
    // counting `$piece` does, one level further down.
    let chars = chars_of(piece_text);
    let to = if offset <= chars.len() {
        offset
    } else {
        chars.len()
    };
    let before = count_in(chars.as_slice(), to, delim);
    let pieces = split_chars(chars.as_slice(), delim);
    let runs = pieces.len();
    proof {
        pieces_and_separators(chars@, delim, to as int);
        assert(views(pieces@).len() == runs);
    }
    match find_run(&said, before + 1) {
        Some(info) => {
            assert(views(pieces@)[before as int] == pieces@[before as int]@);
            Some(Described { info, raw: text_of(pieces[before].as_slice()) })
        },
        None => None,
    }
}

// ---- formatting ---------------------------------------------------------

/// What the tooltip can say about a raw value beyond the value itself.
#[derive(Clone, Debug, PartialEq, Eq)]
pub enum Formatted {
    /// No rule applies, and the raw value is all there is to show.
    Nothing,
    Value(String),
    /// A rule applies and the value is not something it can read: a `%Date`
    /// holding a word, a scaled decimal holding a letter. Worth saying out
    /// loud: silence reads as "nothing to add", and this is a fault in the
    /// stored data.
    Invalid,
}

/// A [`Formatted`] as a mathematical value.
pub enum FormattedState {
    Nothing,
    Value(Seq<char>),
    Invalid,
}

impl View for Formatted {
    type V = FormattedState;

    open spec fn view(&self) -> FormattedState {
        match *self {
            Formatted::Nothing => FormattedState::Nothing,
            Formatted::Value(text) => FormattedState::Value(text@),
            Formatted::Invalid => FormattedState::Invalid,
        }
    }
}

/// The label of a value in a display list.
pub open spec fn label_of(list: Seq<(Seq<char>, Seq<char>)>, raw: Seq<char>) -> Option<Seq<char>>
    decreases list.len(),
{
    if list.len() == 0 {
        None
    } else if list[0].0 == raw {
        Some(list[0].1)
    } else {
        label_of(list.skip(1), raw)
    }
}

/// Whether `kind` names the data type `name`. Not a substring test: `%Date`
/// must not match `%DateTime`, so a match has to end the class name.
pub open spec fn names(kind: Seq<char>, name: Seq<char>) -> bool {
    exists|i: int|
        0 <= i && i + name.len() <= kind.len() && #[trigger] kind.subrange(i, i + name.len())
            == name && (i + name.len() == kind.len() || !ascii_alnum(kind[i + name.len()]))
}

/// IRIS's logical `%Date`: whole days since 1840-12-31. There is no negative
/// one, and none past the last day there is.
pub open spec fn date_of(raw: Seq<char>) -> Option<Seq<char>> {
    match signed(trim(raw)) {
        Some(days) => {
            let number = day_number(1840, 12, 31) + days;
            if 0 <= days && number <= last_day() {
                Some(choose|text: Seq<char>| shows_day(text, number))
            } else {
                None
            }
        },
        None => None,
    }
}

/// IRIS's logical `%Time`: whole seconds since midnight.
pub open spec fn time_of(raw: Seq<char>) -> Option<Seq<char>> {
    match unsigned(trim(raw), u32::MAX as int) {
        Some(seconds) => if seconds < 86_400 {
            Some(
                padded((seconds / 3600) as nat, 2) + seq![':'] + padded(
                    ((seconds % 3600) / 60) as nat,
                    2,
                ) + seq![':'] + padded((seconds % 60) as nat, 2),
            )
        } else {
            None
        },
        None => None,
    }
}

/// The decimal count out of a `"total,decimals"` size, or `None` for a bare
/// width.
pub open spec fn places_of(size: Seq<char>) -> Option<int> {
    match cut_once(size, ',') {
        Some((_, decimals)) => unsigned(trim(decimals), u32::MAX as int),
        None => None,
    }
}

pub open spec fn power_of_ten(n: nat) -> nat
    decreases n,
{
    if n == 0 {
        1
    } else {
        10 * power_of_ten((n - 1) as nat)
    }
}

/// A scaled whole number divided by `10^decimals`: `,` for the decimal point,
/// `.` grouping the integer part in thousands.
pub open spec fn decimal_of(raw: Seq<char>, decimals: nat) -> Option<Seq<char>> {
    let t = trim(raw);
    let negative = t.len() > 0 && t[0] == '-';
    let d = if negative {
        t.skip(1)
    } else {
        t
    };
    let scale = power_of_ten(decimals);
    if !is_digits(d) || value(d) > u64::MAX || scale > u64::MAX {
        None
    } else {
        let n = value(d);
        Some(
            (if negative && n != 0 {
                seq!['-']
            } else {
                Seq::empty()
            }) + grouped(n / scale) + (if decimals > 0 {
                seq![','] + padded(n % scale, decimals)
            } else {
                Seq::empty()
            }),
        )
    }
}

pub open spec fn or_invalid(text: Option<Seq<char>>) -> FormattedState {
    match text {
        Some(text) => FormattedState::Value(text),
        None => FormattedState::Invalid,
    }
}

/// How a raw value reads under a piece's rules. An unset piece is not wrong; a
/// display list wins over a type; a value the list does not mention falls
/// through to the type.
pub open spec fn formatted(piece: PieceState, raw: Seq<char>) -> FormattedState {
    if trim(raw).len() == 0 {
        FormattedState::Nothing
    } else if label_of(piece.value_list, raw) is Some {
        FormattedState::Value(label_of(piece.value_list, raw)->0)
    } else if names(piece.kind, "%Date"@) {
        or_invalid(date_of(raw))
    } else if names(piece.kind, "%Time"@) {
        or_invalid(time_of(raw))
    } else {
        match places_of(piece.size) {
            Some(decimals) => or_invalid(decimal_of(raw, decimals as nat)),
            None => FormattedState::Nothing,
        }
    }
}

/// The characters of a text and the part of them without white space around it.
fn trimmed_range(text: &str) -> (r: (Vec<char>, usize, usize))
    ensures
        r.1 <= r.2 <= r.0@.len(),
        r.0@ == text@,
        r.0@.subrange(r.1 as int, r.2 as int) == trim(text@),
{
    let chars = chars_of(text);
    let len = chars.len();
    let end = end_of_trimmed(chars.as_slice(), 0, len);
    let start = start_of_trimmed(chars.as_slice(), 0, end);
    assert(chars@.subrange(0, len as int) =~= chars@);
    (chars, start, end)
}

fn names_type(kind: &str, name: &str) -> (yes: bool)
    ensures
        yes == names(kind@, name@),
{
    let chars = chars_of(kind);
    let pat = chars_of(name);
    let len = chars.len();
    let mut i: usize = 0;
    loop
        invariant
            i <= len == chars@.len(),
            chars@ == kind@,
            pat@ == name@,
            forall|k: int|
                0 <= k < i && k + pat@.len() <= chars@.len() && #[trigger] chars@.subrange(
                    k,
                    k + pat@.len(),
                ) == pat@ ==> !(k + pat@.len() == chars@.len() || !ascii_alnum(
                    chars@[k + pat@.len()],
                )),
        decreases len - i,
    {
        if stands_at(chars.as_slice(), i, pat.as_slice()) {
            let end = i + pat.len();
            if end == len || !is_alnum(chars[end]) {
                assert(kind@.subrange(i as int, i + name@.len()) == name@);
                return true;
            }
        }
        if i == len {
            return false;
        }
        i += 1;
    }
}

fn format_date(raw: &str) -> (text: Option<String>)
    ensures
        opt_text(text) == date_of(raw@),
{
    let (chars, start, end) = trimmed_range(raw);
    proof {
        the_last_day_is_in_reach(1840, 12, 31);
    }
    match read_signed(chars.as_slice(), start, end) {
        // Day 0 is the epoch itself; there is no negative logical date.
        Some(days) => if 0 <= days && days <= 106_751_991_167 {
            let text = date_after(1840, 12, 31, days, "%d/%m/%Y");
            proof {
                let number = day_number(1840, 12, 31) + days;
                if text is Some {
                    a_day_is_shown_one_way(
                        text->0@,
                        choose|t: Seq<char>| shows_day(t, number),
                        number,
                    );
                }
            }
            text
        } else {
            None
        },
        None => None,
    }
}

fn format_time(raw: &str) -> (text: Option<String>)
    ensures
        opt_text(text) == time_of(raw@),
{
    let (chars, start, end) = trimmed_range(raw);
    match read_unsigned(chars.as_slice(), start, end, 0xffff_ffff) {
        // 86400 is the following midnight, which no time-of-day ever is.
        Some(seconds) => if seconds < 86_400 {
            let mut out = String::new();
            push_padded(&mut out, seconds / 3600, 2);
            out.push(':');
            push_padded(&mut out, (seconds % 3600) / 60, 2);
            out.push(':');
            push_padded(&mut out, seconds % 60, 2);
            assert(out@ =~= padded((seconds / 3600) as nat, 2) + seq![':'] + padded(
                ((seconds % 3600) / 60) as nat,
                2,
            ) + seq![':'] + padded((seconds % 60) as nat, 2));
            Some(out)
        } else {
            None
        },
        None => None,
    }
}

fn decimal_places(size: &str) -> (places: Option<u32>)
    ensures
        match places {
            Some(n) => places_of(size@) == Some(n as int),
            None => places_of(size@) is None,
        },
{
    let chars = chars_of(size);
    let len = chars.len();
    match find(chars.as_slice(), ',') {
        Some(at) => {
            let end = end_of_trimmed(chars.as_slice(), at + 1, len);
            let start = start_of_trimmed(chars.as_slice(), at + 1, end);
            assert(chars@.subrange(at + 1, len as int) =~= size@.skip(at + 1));
            match read_unsigned(chars.as_slice(), start, end, 0xffff_ffff) {
                Some(n) => Some(n as u32),
                None => None,
            }
        },
        None => None,
    }
}

proof fn power_of_ten_grows(n: nat, m: nat)
    requires
        n <= m,
    ensures
        1 <= power_of_ten(n) <= power_of_ten(m),
    decreases m,
{
    if n < m {
        power_of_ten_grows(n, (m - 1) as nat);
    } else if n > 0 {
        power_of_ten_grows((n - 1) as nat, (m - 1) as nat);
    }
}

/// `10^decimals`, if that is a number of 64 bits.
fn scale_of(decimals: u32) -> (scale: Option<u64>)
    ensures
        match scale {
            Some(scale) => scale == power_of_ten(decimals as nat) && scale >= 1,
            None => power_of_ten(decimals as nat) > u64::MAX,
        },
{
    let mut scale: u64 = 1;
    let mut i: u32 = 0;
    while i < decimals
        invariant
            i <= decimals,
            scale >= 1,
            scale == power_of_ten(i as nat),
        decreases decimals - i,
    {
        proof {
            assert(power_of_ten((i + 1) as nat) == 10 * scale);
            power_of_ten_grows((i + 1) as nat, decimals as nat);
        }
        match scale.checked_mul(10) {
            Some(next) => scale = next,
            None => return None,
        }
        i += 1;
    }
    Some(scale)
}

/// Integer arithmetic throughout: `raw` is a scaled integer straight off the
/// wire, and there is no reason to let anything else near a currency figure.
fn format_decimal(raw: &str, decimals: u32) -> (text: Option<String>)
    ensures
        opt_text(text) == decimal_of(raw@, decimals as nat),
{
    let (chars, start, end) = trimmed_range(raw);
    let ghost t = trim(raw@);
    let negative = start < end && chars[start] == '-';
    let from = if negative {
        start + 1
    } else {
        start
    };
    let ghost d = chars@.subrange(from as int, end as int);
    assert(d =~= if negative { t.skip(1) } else { t });
    // Digits only: a second sign is no number.
    if from == end || !is_digit(chars[from]) {
        assert(!is_digits(d)) by {
            if from < end {
                assert(!ascii_digit(d[0]));
            }
        }
        return None;
    }
    let scale = match scale_of(decimals) {
        Some(scale) => scale,
        None => return None,
    };
    assert(d[0] != '+');
    let n = match read_unsigned(chars.as_slice(), from, end, u64::MAX) {
        Some(n) => n,
        None => return None,
    };
    let (whole, frac) = (n / scale, n % scale);
    let mut out = String::new();
    if negative && n != 0 {
        out.push('-');
    }
    out.append(group_thousands(whole).as_str());
    if decimals > 0 {
        out.push(',');
        push_padded(&mut out, frac, decimals as usize);
    }
    assert(out@ =~= decimal_of(raw@, decimals as nat)->0);
    Some(out)
}

fn find_label(list: &Vec<(String, String)>, raw: &str) -> (label: Option<String>)
    ensures
        opt_text(label) == label_of(pairs(list@), raw@),
{
    let ghost want = pairs(list@);
    let mut i: usize = 0;
    assert(want.skip(0) =~= want);
    while i < list.len()
        invariant
            i <= list@.len(),
            want == pairs(list@),
            label_of(want, raw@) == label_of(want.skip(i as int), raw@),
        decreases list.len() - i,
    {
        assert(want.skip(i as int).skip(1) =~= want.skip(i + 1));
        assert(want[i as int] == (list@[i as int].0@, list@[i as int].1@));
        if same(list[i].0.as_str(), raw) {
            return Some(list[i].1.clone());
        }
        i += 1;
    }
    None
}

fn value_or_invalid(text: Option<String>) -> (f: Formatted)
    ensures
        f@ == or_invalid(opt_text(text)),
{
    match text {
        Some(text) => Formatted::Value(text),
        None => Formatted::Invalid,
    }
}

/// How `raw` reads under `piece`'s rules.
///
/// Order matters: a value list is the most specific thing a property can carry
/// and wins over a type-based rule, even where both happen to apply. A value
/// the list does not mention falls through rather than being called invalid:
/// these lists are often partial.
pub fn format_value(piece: &PieceInfo, raw: &str) -> (f: Formatted)
    ensures
        f@ == formatted(piece@, raw@),
{
    // An empty piece is unset, not wrong. Every rule below would refuse it, and
    // calling every unset date in a row invalid would be noise.
    let (_, start, end) = trimmed_range(raw);
    if start == end {
        return Formatted::Nothing;
    }
    if let Some(label) = find_label(&piece.value_list, raw) {
        return Formatted::Value(label);
    }
    let kind = piece.kind.as_str();
    if names_type(kind, "%Date") {
        return value_or_invalid(format_date(raw));
    }
    if names_type(kind, "%Time") {
        return value_or_invalid(format_time(raw));
    }
    match decimal_places(piece.size.as_str()) {
        Some(decimals) => value_or_invalid(format_decimal(raw, decimals)),
        None => Formatted::Nothing,
    }
}

} // verus!
