//! The query that asks IRIS for a global's structure, and its answer.

use vstd::prelude::*;

use super::doc_lookup::{
    fixed_states, map_states, pairs, MapInfo, MapState, PieceInfo, PieceState,
};
use crate::number::{read_unsigned, unsigned};
use crate::objectscript::{literal, quoted, type_lines, typed};
use crate::text::{
    chars_of, cut_once, end_of_trimmed, find, push_chars, split, split_chars,
    stands_at, start_of_trimmed, text_between, text_of, texts, trim, views,
};

verus! {

/// Wraps one map's line in the query's answer, one piece's line, and the line
/// that says the answer is complete. Ordinary printable text, not a control
/// byte: a control that is not recognised is dropped rather than drawn, so it
/// would never reach a row's cells to be found again.
pub const MARK_MAP: &'static str = "##CSWMAP##";

pub const MARK: &'static str = "##CSWTIP##";

pub const MARK_END: &'static str = "##CSWTIPEND##";

// ---- the query ----------------------------------------------------------

/// Nothing left over from an earlier answer.
pub open spec fn clear_line() -> Seq<char> {
    "K cswT,cc,mm,kk,pp"@
}

/// Into the namespace.
pub open spec fn switch_line(namespace: Seq<char>) -> Seq<char> {
    "ZN "@
        + literal(namespace)
}

/// The structure, if the namespace was reached: a switch to one that does not
/// exist leaves the session where it was, and answering out of the wrong one
/// would be taken for the right one.
pub open spec fn ask_line(namespace: Seq<char>, global: Seq<char>) -> Seq<char> {
    "I $ZCVT($ZNSPACE,\"U\")=$ZCVT("@
        + literal(namespace)
        + ",\"U\") S cswG="@
        + literal(global)
        + ",cswSc=##class(Src2.Classe).ObterInfoClassesGlobalCache(cswG,.cswT)"@
}

/// A global that is not described where it lives is looked up again in the
/// configured development namespace.
pub open spec fn fallback_line() -> Seq<char> {
    "I '$D(cswT),$D(cswG) S cswNs2=\"\",cswSc=##class(Src2.Config).ObterNamespaceDesenv(,.cswNs2) ZN:cswNs2'=\"\" cswNs2 S cswSc=##class(Src2.Classe).ObterInfoClassesGlobalCache(cswG,.cswT)"@
}

/// One marked line per data map, so that the one whose shape the row has can
/// be picked.
pub open spec fn maps_line() -> Seq<char> {
    "S cc=\"\" F  S cc=$O(cswT(cc)) Q:cc=\"\"  S mm=\"\" F  S mm=$O(cswT(cc,\"maps\",\"data\",mm)) Q:mm=\"\"  S kk=\"\",nn=0,ff=\"\" F  S kk=$O(cswT(cc,\"maps\",\"data\",mm,\"chaves\",kk)) Q:kk=\"\"  S nn=nn+1 S:$D(cswT(cc,\"maps\",\"data\",mm,\"chaves\",kk,\"fixa\")) ff=ff_kk_\":\"_$P(cswT(cc,\"maps\",\"data\",mm,\"chaves\",kk,\"fixa\"),\"^\",1)_\",\" W:$O(cswT(cc,\"maps\",\"data\",mm,\"chaves\",kk))=\"\" \""@
        + MARK_MAP@
        + "\"_cc_\"|\"_mm_\"|\"_nn_\"|\"_ff_\"##\",!"@
}

/// One marked line per piece, each saying which map it belongs to and which
/// delimiter, if any, subdivides it further.
pub open spec fn pieces_line() -> Seq<char> {
    "S cc=\"\" F  S cc=$O(cswT(cc)) Q:cc=\"\"  S mm=\"\" F  S mm=$O(cswT(cc,\"maps\",\"data\",mm)) Q:mm=\"\"  S pp=\"\" F  S pp=$O(cswT(cc,\"maps\",\"data\",mm,\"pieces\",pp)) Q:pp=\"\"  S dp=cswT(cc,\"maps\",\"data\",mm,\"pieces\",pp),pr=$P(dp,\"^\",1),sq=$P(dp,\"^\",3),d2=$G(cswT(cc,\"maps\",\"data\",mm,\"pieces\",pp,2)),dd=$G(cswT(cc,\"props\",pr)),cswSc=$$EditarDadosPropriedade^%CSWDOCGLOBALRG(.dd) W:pr'=\"\" \""@
        + MARK@
        + "\"_cc_\"|\"_mm_\"|\"_sq_\"|\"_d2_\"|\"_$P(dd,\"^\",1)_\"|\"_$P(dd,\"^\",5)_\"|\"_$P(dd,\"^\",3)_\"|\"_$P(dd,\"^\",6)_\"|\"_$P(dd,\"^\",7)_\"##\",!"@
}

/// The end marker, on a line of its own: an argumentless `FOR` takes the rest
/// of its line as its body.
pub open spec fn end_line() -> Seq<char> {
    "W \""@
        + MARK_END@
        + "\",!"@
}

/// The lines of the query.
pub open spec fn query_lines(namespace: Seq<char>, global: Seq<char>) -> Seq<Seq<char>> {
    seq![
        clear_line(),
        switch_line(namespace),
        ask_line(namespace, global),
        fallback_line(),
        maps_line(),
        pieces_line(),
        end_line(),
    ]
}

fn clear_line_text() -> (out: String)
    ensures
        out@ == clear_line(),
{
    let mut out = String::new();
    out.append("K cswT,cc,mm,kk,pp");
    assert(out@ =~= clear_line());
    out
}

fn switch_line_text(namespace: &str) -> (out: String)
    ensures
        out@ == switch_line(namespace@),
{
    let mut out = String::new();
    out.append("ZN ");
    out.append(quoted(namespace).as_str());
    assert(out@ =~= switch_line(namespace@));
    out
}

fn ask_line_text(namespace: &str, global: &str) -> (out: String)
    ensures
        out@ == ask_line(namespace@, global@),
{
    let mut out = String::new();
    out.append("I $ZCVT($ZNSPACE,\"U\")=$ZCVT(");
    out.append(quoted(namespace).as_str());
    out.append(",\"U\") S cswG=");
    out.append(quoted(global).as_str());
    out.append(",cswSc=##class(Src2.Classe).ObterInfoClassesGlobalCache(cswG,.cswT)");
    assert(out@ =~= ask_line(namespace@, global@));
    out
}

fn fallback_line_text() -> (out: String)
    ensures
        out@ == fallback_line(),
{
    let mut out = String::new();
    out.append("I '$D(cswT),$D(cswG) S cswNs2=\"\",cswSc=##class(Src2.Config).ObterNamespaceDesenv(,.cswNs2) ZN:cswNs2'=\"\" cswNs2 S cswSc=##class(Src2.Classe).ObterInfoClassesGlobalCache(cswG,.cswT)");
    assert(out@ =~= fallback_line());
    out
}

fn maps_line_text() -> (out: String)
    ensures
        out@ == maps_line(),
{
    let mut out = String::new();
    out.append("S cc=\"\" F  S cc=$O(cswT(cc)) Q:cc=\"\"  S mm=\"\" F  S mm=$O(cswT(cc,\"maps\",\"data\",mm)) Q:mm=\"\"  S kk=\"\",nn=0,ff=\"\" F  S kk=$O(cswT(cc,\"maps\",\"data\",mm,\"chaves\",kk)) Q:kk=\"\"  S nn=nn+1 S:$D(cswT(cc,\"maps\",\"data\",mm,\"chaves\",kk,\"fixa\")) ff=ff_kk_\":\"_$P(cswT(cc,\"maps\",\"data\",mm,\"chaves\",kk,\"fixa\"),\"^\",1)_\",\" W:$O(cswT(cc,\"maps\",\"data\",mm,\"chaves\",kk))=\"\" \"");
    out.append(MARK_MAP);
    out.append("\"_cc_\"|\"_mm_\"|\"_nn_\"|\"_ff_\"##\",!");
    assert(out@ =~= maps_line());
    out
}

fn pieces_line_text() -> (out: String)
    ensures
        out@ == pieces_line(),
{
    let mut out = String::new();
    out.append("S cc=\"\" F  S cc=$O(cswT(cc)) Q:cc=\"\"  S mm=\"\" F  S mm=$O(cswT(cc,\"maps\",\"data\",mm)) Q:mm=\"\"  S pp=\"\" F  S pp=$O(cswT(cc,\"maps\",\"data\",mm,\"pieces\",pp)) Q:pp=\"\"  S dp=cswT(cc,\"maps\",\"data\",mm,\"pieces\",pp),pr=$P(dp,\"^\",1),sq=$P(dp,\"^\",3),d2=$G(cswT(cc,\"maps\",\"data\",mm,\"pieces\",pp,2)),dd=$G(cswT(cc,\"props\",pr)),cswSc=$$EditarDadosPropriedade^%CSWDOCGLOBALRG(.dd) W:pr'=\"\" \"");
    out.append(MARK);
    out.append("\"_cc_\"|\"_mm_\"|\"_sq_\"|\"_d2_\"|\"_$P(dd,\"^\",1)_\"|\"_$P(dd,\"^\",5)_\"|\"_$P(dd,\"^\",3)_\"|\"_$P(dd,\"^\",6)_\"|\"_$P(dd,\"^\",7)_\"##\",!");
    assert(out@ =~= pieces_line());
    out
}

fn end_line_text() -> (out: String)
    ensures
        out@ == end_line(),
{
    let mut out = String::new();
    out.append("W \"");
    out.append(MARK_END);
    out.append("\",!");
    assert(out@ =~= end_line());
    out
}

/// The lines typed into the session: switch namespace, read the structure,
/// print one marked line per data map, one per piece, then the end marker.
///
/// Not a `{` in sight, and the end marker on a line of its own, because neither
/// shortcut survives contact with a terminal's command line: an argumentless
/// `FOR` takes the rest of the line as its body, and a `DO { ... }` block is
/// compiled per invocation in direct mode.
pub fn build_query(namespace: &str, global: &str) -> (query: String)
    ensures
        query@ == typed(query_lines(namespace@, global@)),
{
    let mut lines: Vec<String> = Vec::new();
    lines.push(clear_line_text());
    lines.push(switch_line_text(namespace));
    lines.push(ask_line_text(namespace, global));
    lines.push(fallback_line_text());
    lines.push(maps_line_text());
    lines.push(pieces_line_text());
    lines.push(end_line_text());
    assert(texts(lines@) =~= query_lines(namespace@, global@));
    type_lines(&lines)
}

// ---- the answer ---------------------------------------------------------

/// A marked line's payload: what sits between the marker and the trailing `##`.
pub open spec fn payload(line: Seq<char>, mark: Seq<char>) -> Option<Seq<char>> {
    let n = mark.len() as int;
    if line.len() >= n + 2 && line.subrange(0, n) == mark && line[line.len() - 2] == '#'
        && line.last() == '#' {
        Some(line.subrange(n, line.len() - 2))
    } else {
        None
    }
}

/// `3:3,4:1,` as the positions and values of a map's constant subscripts.
pub open spec fn fixed_of(entries: Seq<Seq<char>>) -> Seq<(int, Seq<char>)>
    decreases entries.len(),
{
    if entries.len() == 0 {
        Seq::empty()
    } else {
        let before = fixed_of(entries.drop_last());
        match cut_once(entries.last(), ':') {
            Some((at, value)) => match unsigned(trim(at), usize::MAX as int) {
                Some(at) => before.push((at, value)),
                None => before,
            },
            None => before,
        }
    }
}

/// IRIS's own spelling of a piece number: `12`, or `12,1` for one run of a
/// subdivided piece.
pub open spec fn sequence_of(seq: Seq<char>) -> Option<(int, Option<int>)> {
    match cut_once(seq, ',') {
        Some((piece, sub)) => match (
            unsigned(trim(piece), usize::MAX as int),
            unsigned(trim(sub), usize::MAX as int),
        ) {
            (Some(piece), Some(sub)) => Some((piece, Some(sub))),
            _ => None,
        },
        None => match unsigned(trim(seq), usize::MAX as int) {
            Some(piece) => Some((piece, None)),
            None => None,
        },
    }
}

/// Values paired with their labels, those without a value left out. The first
/// of each is a placeholder that both sides skip.
pub open spec fn listed(
    values: Seq<Seq<char>>,
    labels: Seq<Seq<char>>,
    n: int,
) -> Seq<(Seq<char>, Seq<char>)>
    decreases n,
{
    if n <= 1 {
        Seq::empty()
    } else {
        let before = listed(values, labels, n - 1);
        if values[n - 1].len() == 0 {
            before
        } else {
            before.push((values[n - 1], labels[n - 1]))
        }
    }
}

pub open spec fn value_list_of(values: Seq<char>, labels: Seq<char>) -> Seq<
    (Seq<char>, Seq<char>),
> {
    let v = split(values, ',');
    let l = split(labels, ',');
    listed(
        v,
        l,
        if v.len() <= l.len() {
            v.len() as int
        } else {
            l.len() as int
        },
    )
}

/// How a map is told from another: by its class and its own name.
pub open spec fn map_id(fields: Seq<Seq<char>>) -> Seq<char> {
    fields[0] + seq!['|'] + fields[1]
}

/// The map a header line introduces.
pub open spec fn header_of(fields: Seq<Seq<char>>) -> Option<(Seq<char>, MapState)> {
    if fields.len() < 3 {
        None
    } else {
        match unsigned(trim(fields[2]), usize::MAX as int) {
            Some(keys) => Some(
                (
                    map_id(fields),
                    MapState {
                        keys,
                        fixed: if fields.len() > 3 {
                            fixed_of(split(fields[3], ','))
                        } else {
                            Seq::empty()
                        },
                        pieces: Seq::empty(),
                    },
                ),
            ),
            None => None,
        }
    }
}

pub open spec fn field_or_empty(fields: Seq<Seq<char>>, i: int) -> Seq<char> {
    if i < fields.len() {
        fields[i]
    } else {
        Seq::empty()
    }
}

/// The piece a piece line describes.
pub open spec fn piece_of(fields: Seq<Seq<char>>) -> Option<PieceState> {
    if fields.len() < 7 {
        None
    } else {
        match sequence_of(fields[2]) {
            Some((piece, sub)) => Some(
                PieceState {
                    piece,
                    sub,
                    sub_delim: if fields[3].len() > 0 {
                        Some(fields[3][0])
                    } else {
                        None
                    },
                    description: fields[4],
                    size: fields[5],
                    kind: fields[6],
                    value_list: value_list_of(
                        field_or_empty(fields, 7),
                        field_or_empty(fields, 8),
                    ),
                },
            ),
            None => None,
        }
    }
}

/// The maps read so far, each with its name, and whether the end was seen.
#[verifier::ext_equal]
pub struct Answer {
    pub maps: Seq<(Seq<char>, MapState)>,
    pub complete: bool,
}

/// Where the first map of a name stands, searching from `from`.
pub open spec fn map_named(maps: Seq<(Seq<char>, MapState)>, id: Seq<char>, from: int) -> Option<int>
    decreases maps.len() - from,
{
    if from < 0 || from >= maps.len() {
        None
    } else if maps[from].0 == id {
        Some(from)
    } else {
        map_named(maps, id, from + 1)
    }
}

impl Answer {
    /// A map of its own.
    pub open spec fn add_map(self, fields: Seq<Seq<char>>) -> Answer {
        match header_of(fields) {
            Some(map) => Answer { maps: self.maps.push(map), ..self },
            None => self,
        }
    }

    /// A piece of the first map of its name; dropped if there is none.
    pub open spec fn add_piece(self, fields: Seq<Seq<char>>) -> Answer {
        match piece_of(fields) {
            None => self,
            Some(piece) => match map_named(self.maps, map_id(fields), 0) {
                None => self,
                Some(i) => {
                    let (id, map) = self.maps[i];
                    Answer {
                        maps: self.maps.update(
                            i,
                            (id, MapState { pieces: map.pieces.push(piece), ..map }),
                        ),
                        ..self
                    }
                },
            },
        }
    }

    /// One line of the screen. What is not marked is not part of the answer.
    pub open spec fn line(self, raw: Seq<char>) -> Answer {
        let line = trim(raw);
        if line == MARK_END@ {
            Answer { complete: true, ..self }
        } else if payload(line, MARK_MAP@) is Some {
            self.add_map(split(payload(line, MARK_MAP@)->0, '|'))
        } else if payload(line, MARK@) is Some {
            self.add_piece(split(payload(line, MARK@)->0, '|'))
        } else {
            self
        }
    }
}

/// What has been read of an answer.
pub open spec fn answer_of(lines: Seq<Seq<char>>) -> Answer
    decreases lines.len(),
{
    if lines.len() == 0 {
        Answer { maps: Seq::empty(), complete: false }
    } else {
        answer_of(lines.drop_last()).line(lines.last())
    }
}

// ---- reading it ---------------------------------------------------------

/// The views of named maps.
pub open spec fn named(maps: Seq<(Vec<char>, MapInfo)>) -> Seq<(Seq<char>, MapState)> {
    maps.map_values(|m: (Vec<char>, MapInfo)| (m.0@, m.1@))
}

/// Reads a field as a number.
fn number(field: &Vec<char>, from: usize, to: usize) -> (n: Option<usize>)
    requires
        from <= to <= field@.len(),
    ensures
        ({
            let s = trim(field@.subrange(from as int, to as int));
            match n {
                Some(n) => unsigned(s, usize::MAX as int) == Some(n as int),
                None => unsigned(s, usize::MAX as int) is None,
            }
        }),
{
    let end = end_of_trimmed(field.as_slice(), from, to);
    let start = start_of_trimmed(field.as_slice(), from, end);
    match read_unsigned(field.as_slice(), start, end, usize::MAX as u64) {
        Some(n) => Some(n as usize),
        None => None,
    }
}

fn parse_fixed(spec_text: &Vec<char>) -> (fixed: Vec<(usize, String)>)
    ensures
        fixed_states(fixed@) == fixed_of(split(spec_text@, ',')),
{
    let entries = split_chars(spec_text.as_slice(), ',');
    let ghost want = views(entries@);
    let mut fixed: Vec<(usize, String)> = Vec::new();
    let mut i: usize = 0;
    assert(want.take(0) =~= Seq::empty());
    assert(fixed_states(fixed@) =~= Seq::empty());
    while i < entries.len()
        invariant
            i <= entries@.len(),
            want == views(entries@),
            fixed_states(fixed@) == fixed_of(want.take(i as int)),
        decreases entries.len() - i,
    {
        let entry = &entries[i];
        let len = entry.len();
        assert(want.take(i + 1).drop_last() =~= want.take(i as int));
        assert(want[i as int] == entry@);
        if let Some(at) = find(entry.as_slice(), ':') {
            assert(entry@.subrange(0, at as int) =~= entry@.take(at as int));
            assert(entry@.subrange(at + 1, len as int) =~= entry@.skip(at + 1));
            if let Some(n) = number(entry, 0, at) {
                let value = text_between(entry.as_slice(), at + 1, len);
                let ghost before = fixed_states(fixed@);
                fixed.push((n, value));
                assert(fixed_states(fixed@) =~= before.push((n as int, value@)));
            }
        }
        i += 1;
    }
    assert(want.take(i as int) =~= want);
    fixed
}

fn parse_sequence(seq: &Vec<char>) -> (number_of: Option<(usize, Option<usize>)>)
    ensures
        match number_of {
            Some((piece, Some(sub))) => sequence_of(seq@) == Some(
                (piece as int, Some(sub as int)),
            ),
            Some((piece, None)) => sequence_of(seq@) == Some((piece as int, None::<int>)),
            None => sequence_of(seq@) is None,
        },
{
    let len = seq.len();
    match find(seq.as_slice(), ',') {
        Some(at) => {
            assert(seq@.subrange(0, at as int) =~= seq@.take(at as int));
            assert(seq@.subrange(at + 1, len as int) =~= seq@.skip(at + 1));
            match (number(seq, 0, at), number(seq, at + 1, len)) {
                (Some(piece), Some(sub)) => Some((piece, Some(sub))),
                _ => None,
            }
        },
        None => {
            assert(seq@.subrange(0, len as int) =~= seq@);
            match number(seq, 0, len) {
                Some(piece) => Some((piece, None)),
                None => None,
            }
        },
    }
}

/// `",0,1"` and `",Não,Sim"` into pairs. The first of each is a placeholder that
/// both sides skip.
fn parse_value_list(values: &[char], labels: &[char]) -> (list: Vec<(String, String)>)
    ensures
        pairs(list@) == value_list_of(values@, labels@),
{
    let values = split_chars(values, ',');
    let labels = split_chars(labels, ',');
    let ghost v = views(values@);
    let ghost l = views(labels@);
    let n = if values.len() <= labels.len() {
        values.len()
    } else {
        labels.len()
    };
    let mut list: Vec<(String, String)> = Vec::new();
    let mut i: usize = 1;
    assert(pairs(list@) =~= Seq::empty());
    while i < n
        invariant
            1 <= i <= n,
            n <= values@.len(),
            n <= labels@.len(),
            v == views(values@),
            l == views(labels@),
            pairs(list@) == listed(v, l, i as int),
        decreases n - i,
    {
        assert(v[i as int] == values@[i as int]@);
        assert(l[i as int] == labels@[i as int]@);
        if values[i].len() > 0 {
            let ghost before = pairs(list@);
            list.push((text_of(values[i].as_slice()), text_of(labels[i].as_slice())));
            assert(pairs(list@) =~= before.push((v[i as int], l[i as int])));
        }
        i += 1;
    }
    list
}

fn find_payload(line: &[char], from: usize, to: usize, mark: &str) -> (fields: Option<Vec<Vec<char>>>)
    requires
        from <= to <= line@.len(),
    ensures
        ({
            let s = line@.subrange(from as int, to as int);
            match fields {
                Some(fields) => payload(s, mark@) is Some && views(fields@) == split(
                    payload(s, mark@)->0,
                    '|',
                ),
                None => payload(s, mark@) is None,
            }
        }),
{
    let ghost s = line@.subrange(from as int, to as int);
    let pat = chars_of(mark);
    let n = pat.len();
    if to - from < 2 || n > to - from - 2 {
        return None;
    }
    let head = stands_at(line, from, pat.as_slice());
    assert(s.subrange(0, n as int) =~= line@.subrange(from as int, from + n));
    if !head || line[to - 2] != '#' || line[to - 1] != '#' {
        return None;
    }
    let mut inner: Vec<char> = Vec::new();
    let mut i: usize = from + n;
    while i < to - 2
        invariant
            from + n <= i <= to - 2,
            to <= line@.len(),
            inner@ =~= line@.subrange(from + n, i as int),
        decreases to - i,
    {
        inner.push(line[i]);
        i += 1;
    }
    assert(inner@ =~= s.subrange(n as int, s.len() - 2));
    Some(split_chars(inner.as_slice(), '|'))
}

fn make_id(fields: &Vec<Vec<char>>) -> (id: Vec<char>)
    requires
        fields@.len() >= 2,
    ensures
        id@ == map_id(views(fields@)),
{
    let mut id: Vec<char> = Vec::new();
    push_chars(&mut id, fields[0].as_slice());
    id.push('|');
    push_chars(&mut id, fields[1].as_slice());
    assert(id@ =~= map_id(views(fields@)));
    id
}

fn parse_header(fields: &Vec<Vec<char>>) -> (map: Option<(Vec<char>, MapInfo)>)
    ensures
        match map {
            Some(m) => header_of(views(fields@)) == Some((m.0@, m.1@)),
            None => header_of(views(fields@)) is None,
        },
{
    if fields.len() < 3 {
        return None;
    }
    let ghost want = views(fields@);
    assert(want[2] == fields@[2]@);
    let len = fields[2].len();
    assert(fields@[2]@.subrange(0, len as int) =~= fields@[2]@);
    let keys = match number(&fields[2], 0, len) {
        Some(keys) => keys,
        None => return None,
    };
    let fixed = if fields.len() > 3 {
        assert(want[3] == fields@[3]@);
        parse_fixed(&fields[3])
    } else {
        Vec::new()
    };
    let map = MapInfo { keys, fixed, pieces: Vec::new() };
    let id = make_id(fields);
    proof {
        let (name, state) = header_of(want)->0;
        assert(map@ =~= state);
    }
    Some((id, map))
}

fn parse_piece(fields: &Vec<Vec<char>>) -> (piece: Option<PieceInfo>)
    ensures
        match piece {
            Some(p) => piece_of(views(fields@)) == Some(p@),
            None => piece_of(views(fields@)) is None,
        },
{
    if fields.len() < 7 {
        return None;
    }
    let ghost want = views(fields@);
    assert(forall|i: int| 0 <= i < fields@.len() ==> #[trigger] want[i] == fields@[i]@);
    let (piece, sub) = match parse_sequence(&fields[2]) {
        Some(number_of) => number_of,
        None => return None,
    };
    let none: Vec<char> = Vec::new();
    let values = if fields.len() > 7 {
        fields[7].as_slice()
    } else {
        none.as_slice()
    };
    let labels = if fields.len() > 8 {
        fields[8].as_slice()
    } else {
        none.as_slice()
    };
    assert(values@ =~= field_or_empty(want, 7));
    assert(labels@ =~= field_or_empty(want, 8));
    let sub_delim = if fields[3].len() > 0 {
        Some(fields[3][0])
    } else {
        None
    };
    let info = PieceInfo {
        piece,
        sub,
        sub_delim,
        description: text_of(fields[4].as_slice()),
        size: text_of(fields[5].as_slice()),
        kind: text_of(fields[6].as_slice()),
        value_list: parse_value_list(values, labels),
    };
    assert(info@ =~= piece_of(want)->0);
    Some(info)
}

fn equal(a: &Vec<char>, b: &Vec<char>) -> (yes: bool)
    ensures
        yes == (a@ == b@),
{
    if a.len() != b.len() {
        return false;
    }
    let yes = stands_at(a.as_slice(), 0, b.as_slice());
    assert(a@.subrange(0int, 0int + b@.len()) =~= a@);
    yes
}

fn add_piece(maps: &mut Vec<(Vec<char>, MapInfo)>, fields: &Vec<Vec<char>>)
    ensures
        named(final(maps)@) == (Answer { maps: named(old(maps)@), complete: false }).add_piece(
            views(fields@),
        ).maps,
{
    let piece = match parse_piece(fields) {
        Some(piece) => piece,
        None => return,
    };
    let id = make_id(fields);
    let ghost was = named(maps@);
    let mut i: usize = 0;
    while i < maps.len()
        invariant
            i <= maps@.len(),
            maps@ == old(maps)@,
            was == named(maps@),
            piece_of(views(fields@)) == Some(piece@),
            id@ == map_id(views(fields@)),
            map_named(was, id@, 0) == map_named(was, id@, i as int),
        decreases maps.len() - i,
    {
        assert(was[i as int] == (maps@[i as int].0@, maps@[i as int].1@));
        if equal(&maps[i].0, &id) {
            let ghost before = maps@[i as int].1@;
            maps[i].1.pieces.push(piece);
            assert(maps@[i as int].1@ =~= MapState {
                pieces: before.pieces.push(piece@),
                ..before
            });
            assert(named(maps@) =~= was.update(
                i as int,
                (id@, MapState { pieces: before.pieces.push(piece@), ..before }),
            ));
            return;
        }
        i += 1;
    }
}

/// The maps out of the answer, once the end marker has arrived; `None` while it
/// is still coming in.
///
/// Every line names the class and map it belongs to: the two passes that emit
/// them are two separate commands, so the answer is all the headers and then
/// all the pieces, never a header followed by its own.
pub fn parse_answer(lines: &[String]) -> (maps: Option<Vec<MapInfo>>)
    ensures
        maps is Some <==> answer_of(texts(lines@)).complete,
        maps matches Some(maps) ==> map_states(maps@) == answer_of(texts(lines@)).maps.map_values(
            |m: (Seq<char>, MapState)| m.1,
        ),
{
    let ghost want = texts(lines@);
    let mut maps: Vec<(Vec<char>, MapInfo)> = Vec::new();
    let mut complete = false;
    let mut i: usize = 0;
    assert(want.take(0) =~= Seq::empty());
    assert(named(maps@) =~= Seq::empty());
    while i < lines.len()
        invariant
            i <= lines@.len(),
            want == texts(lines@),
            (Answer { maps: named(maps@), complete }) == answer_of(want.take(i as int)),
        decreases lines.len() - i,
    {
        assert(want.take(i + 1).drop_last() =~= want.take(i as int));
        let ghost before = answer_of(want.take(i as int));
        let chars = chars_of(lines[i].as_str());
        let len = chars.len();
        let to = end_of_trimmed(chars.as_slice(), 0, len);
        let from = start_of_trimmed(chars.as_slice(), 0, to);
        assert(chars@.subrange(0, len as int) =~= want[i as int]);
        let ghost line = trim(want[i as int]);
        assert(line == chars@.subrange(from as int, to as int));
        let end_mark = chars_of(MARK_END);
        let is_end = to - from == end_mark.len() && stands_at(
            chars.as_slice(),
            from,
            end_mark.as_slice(),
        );
        if is_end {
            assert(line =~= MARK_END@);
            complete = true;
        } else {
            assert(line != MARK_END@);
            match find_payload(chars.as_slice(), from, to, MARK_MAP) {
                Some(fields) => {
                    if let Some(map) = parse_header(&fields) {
                        let ghost was = named(maps@);
                        maps.push(map);
                        assert(named(maps@) =~= was.push((map.0@, map.1@)));
                    }
                },
                None => {
                    if let Some(fields) = find_payload(chars.as_slice(), from, to, MARK) {
                        add_piece(&mut maps, &fields);
                    }
                },
            }
        }
        assert((Answer { maps: named(maps@), complete }) =~= before.line(want[i as int]));
        i += 1;
    }
    assert(want.take(i as int) =~= want);
    if !complete {
        return None;
    }
    let ghost all = named(maps@);
    let mut out: Vec<MapInfo> = Vec::new();
    let ghost n = maps@.len();
    while maps.len() > 0
        invariant
            maps@.len() + out@.len() == n == all.len(),
            named(maps@) =~= all.skip(out@.len() as int),
            forall|k: int| 0 <= k < out@.len() ==> (#[trigger] out@[k])@ == all[k].1,
        decreases maps.len(),
    {
        let ghost before = maps@;
        let (_, map) = maps.remove(0);
        assert(named(before)[0].1 == map@);
        assert(all.skip(out@.len() as int)[0] == all[out@.len() as int]);
        assert(named(maps@) =~= named(before).skip(1));
        out.push(map);
    }
    assert(map_states(out@) =~= all.map_values(|m: (Seq<char>, MapState)| m.1));
    Some(out)
}

} // verus!
