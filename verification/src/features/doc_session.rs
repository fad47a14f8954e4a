//! The piece tooltip's lookups, and the private session that answers them.
//!
//! The session the user is looking at is never written to: a session nobody
//! else types into has no gap between deciding that it is idle and typing.
//!
//! What is decided here is what to ask, when, and what the answer is. Opening
//! the session, reading from it and writing to it are the caller's.

use std::time::Instant;
use vstd::prelude::*;

use super::autologon::{Autologon, LogonState};
use super::doc_answer::{answer_of, build_query, parse_answer, query_lines};
use super::doc_lookup::{
    fixed_states, map_states, pairs, piece_states, MapInfo, MapState, PieceInfo,
};
use crate::clock::{nanos_apart, nanos_between};
use crate::config::Profile;
use crate::objectscript::typed;
use crate::term::encoding::Encoding;
use crate::term::grid::Grid;
use crate::term::lineedit::{current, line_at};
use crate::term::parser::{actions_of, advance, comes_of, Outcome};
use crate::term::state::{GridState, RowState};
use crate::term::vt::ByteParser;
use crate::text::{opt_text, same, texts};

verus! {

/// How long the answer may take before the global is written off, in
/// nanoseconds. Generous: it covers opening the session and logging in as well
/// as the query itself.
pub const ANSWER_TIMEOUT: u128 = 30_000_000_000;

/// How long the session may sit doing nothing before it is closed and its
/// licence slot given back, in nanoseconds.
pub const IDLE_TIMEOUT: u128 = 120_000_000_000;

/// Wide enough that IRIS never truncates one of the answer's lines at the
/// margin, small enough to cost nothing. It also has to be wider than the
/// query's own longest line, which the session echoes back.
pub const SIDECAR_COLS: u16 = 1024;

pub const SIDECAR_ROWS: u16 = 100;

/// How much of what it says the session's own history keeps.
pub const SIDECAR_SCROLLBACK: usize = 4000;

// ---- what is kept -------------------------------------------------------

/// A namespace and a global in it.
pub type Key = (Seq<char>, Seq<char>);

/// An answer: the maps, or nothing if none came.
pub type Known = Option<Seq<MapState>>;

/// What is remembered about one global.
pub struct Entry {
    pub namespace: String,
    pub global: String,
    pub answer: Option<Vec<MapInfo>>,
}

impl Entry {
    pub open spec fn key(&self) -> Key {
        (self.namespace@, self.global@)
    }

    pub open spec fn known(&self) -> Known {
        match self.answer {
            Some(maps) => Some(map_states(maps@)),
            None => None,
        }
    }
}

pub open spec fn entries(cache: Seq<Entry>) -> Seq<(Key, Known)> {
    cache.map_values(|e: Entry| (e.key(), e.known()))
}

/// Where a global is remembered, searching from `from`.
pub open spec fn place_of(cache: Seq<(Key, Known)>, key: Key, from: int) -> Option<int>
    decreases cache.len() - from,
{
    if from < 0 || from >= cache.len() {
        None
    } else if cache[from].0 == key {
        Some(from)
    } else {
        place_of(cache, key, from + 1)
    }
}

/// What is remembered about a global.
pub open spec fn remembered(cache: Seq<(Key, Known)>, key: Key) -> Option<Known> {
    match place_of(cache, key, 0) {
        Some(i) => Some(cache[i].1),
        None => None,
    }
}

/// An answer written down, in place of an earlier one if there was one.
pub open spec fn with_answer(cache: Seq<(Key, Known)>, key: Key, known: Known) -> Seq<
    (Key, Known),
> {
    match place_of(cache, key, 0) {
        Some(i) => cache.update(i, (key, known)),
        None => cache.push((key, known)),
    }
}

/// Where the session is in answering.
pub enum Step {
    /// Opened, but not yet sitting at a prompt that can be typed at: logging
    /// in, or still printing its banner.
    Waking,
    /// Asked, watching its own screen for the end marker.
    Asking { namespace: String, global: String, since: Instant },
}

pub enum StepState {
    Waking,
    Asking(Key, Instant),
}

impl View for Step {
    type V = StepState;

    open spec fn view(&self) -> StepState {
        match *self {
            Step::Waking => StepState::Waking,
            Step::Asking { namespace, global, since } => StepState::Asking(
                (namespace@, global@),
                since,
            ),
        }
    }
}

/// A second session's own terminal. It is deliberately never given a log: it
/// types a password during autologon, and a password reaches no file.
pub struct Sidecar {
    pub parser: ByteParser,
    pub grid: Grid,
    pub autologon: Autologon,
    pub step: Step,
    /// When the session last had anything to do. It holds a licence slot open
    /// for as long as it lives.
    pub idle_since: Instant,
}

/// A [`Sidecar`] as a mathematical value.
#[verifier::ext_equal]
pub struct SidecarState {
    /// What the session has said so far.
    pub taken: Seq<u8>,
    pub grid: GridState,
    pub autologon: LogonState,
    pub step: StepState,
    pub idle_since: Instant,
}

impl View for Sidecar {
    type V = SidecarState;

    open spec fn view(&self) -> SidecarState {
        SidecarState {
            taken: self.parser.taken(),
            grid: self.grid@,
            autologon: self.autologon@,
            step: self.step@,
            idle_since: self.idle_since,
        }
    }
}

/// A question that a hover asked for and that is not asked yet, and since when.
pub struct Want {
    pub namespace: String,
    pub global: String,
    pub since: Instant,
}

pub struct DocLookup {
    pub cache: Vec<Entry>,
    pub want: Option<Want>,
    pub sidecar: Option<Sidecar>,
    /// Opening one failed, or there is none to open. Not retried: a tooltip is
    /// not worth a reconnect attempt per frame.
    pub unavailable: bool,
}

/// A [`DocLookup`] as a mathematical value.
#[verifier::ext_equal]
pub struct LookupState {
    pub cache: Seq<(Key, Known)>,
    pub want: Option<(Key, Instant)>,
    pub sidecar: Option<SidecarState>,
    pub unavailable: bool,
}

impl View for DocLookup {
    type V = LookupState;

    open spec fn view(&self) -> LookupState {
        LookupState {
            cache: entries(self.cache@),
            want: match self.want {
                Some(want) => Some(((want.namespace@, want.global@), want.since)),
                None => None,
            },
            sidecar: match self.sidecar {
                Some(sidecar) => Some(sidecar@),
                None => None,
            },
            unavailable: self.unavailable,
        }
    }
}

/// Whether the structure of a global is known, being asked for, or beyond
/// asking.
#[derive(Clone, Debug, PartialEq, Eq)]
pub enum Lookup {
    /// Known, from this call or an earlier one.
    Ready(Vec<MapInfo>),
    /// Asked before and got nothing back for it: not retried.
    NotFound,
    /// A query is in flight (for this global or another); try again once it
    /// settles.
    Pending,
    /// Nothing will be asked: there is nothing to ask. A shell has no
    /// namespaces and no globals, and a session that could not be opened is not
    /// opened again for a tooltip.
    Unavailable,
}

pub enum LookupResult {
    Ready(Seq<MapState>),
    NotFound,
    Pending,
    Unavailable,
}

impl View for Lookup {
    type V = LookupResult;

    open spec fn view(&self) -> LookupResult {
        match *self {
            Lookup::Ready(maps) => LookupResult::Ready(map_states(maps@)),
            Lookup::NotFound => LookupResult::NotFound,
            Lookup::Pending => LookupResult::Pending,
            Lookup::Unavailable => LookupResult::Unavailable,
        }
    }
}

/// What a round of [`DocLookup::pump`] came to.
pub struct Pumped {
    /// Something moved, so a frame is worth asking for.
    pub moved: bool,
    /// What is to be typed into the session.
    pub query: Option<String>,
}

pub struct PumpedState {
    pub after: LookupState,
    pub moved: bool,
    pub query: Option<Seq<char>>,
}

// ---- what happens to it -------------------------------------------------

/// Whether the session is sitting at a bare prompt and can be typed at.
pub open spec fn can_be_asked(grid: GridState) -> bool {
    match line_at(grid) {
        Some(line) => line.end <= line.start,
        None => false,
    }
}

/// The lines of a session's history and screen.
pub open spec fn lines_on(grid: GridState) -> Seq<Seq<char>> {
    (grid.scrollback + grid.screen).map_values(|r: RowState| r.text())
}

impl SidecarState {
    pub open spec fn wf(self) -> bool {
        self.grid.wf()
    }
}

impl LookupState {
    pub open spec fn wf(self) -> bool {
        self.sidecar matches Some(sidecar) ==> sidecar.wf()
    }

    pub open spec fn asking(self) -> bool {
        self.sidecar matches Some(sidecar) && sidecar.step is Asking
    }

    /// How long the question has waited at a moment: since it was asked, or
    /// since a hover wanted it asked.
    pub open spec fn waited_by(self, now: Instant) -> int {
        match (self.sidecar, self.want) {
            (Some(sidecar), want) => match (sidecar.step, want) {
                (StepState::Asking(_, since), _) => nanos_apart(now, since) as int,
                (StepState::Waking, Some((_, since))) => nanos_apart(now, since) as int,
                (StepState::Waking, None) => 0,
            },
            (None, _) => 0,
        }
    }

    /// How long the session has had nothing to do at a moment.
    pub open spec fn idle_by(self, now: Instant) -> int {
        match self.sidecar {
            Some(sidecar) => nanos_apart(now, sidecar.idle_since) as int,
            None => 0,
        }
    }

    /// A hover asks.
    pub open spec fn request(self, key: Key, now: Instant) -> (LookupState, LookupResult) {
        match remembered(self.cache, key) {
            Some(Some(maps)) => (self, LookupResult::Ready(maps)),
            Some(None) => (self, LookupResult::NotFound),
            None => if self.unavailable {
                (self, LookupResult::Unavailable)
            } else if self.want is None && !self.asking() {
                (LookupState { want: Some((key, now)), ..self }, LookupResult::Pending)
            } else {
                (self, LookupResult::Pending)
            },
        }
    }

    /// An answer came, or none will: it is written down and the session waits
    /// for the next question.
    pub open spec fn finish(self, key: Key, known: Known, now: Instant) -> LookupState {
        LookupState {
            cache: with_answer(self.cache, key, known),
            sidecar: match self.sidecar {
                Some(sidecar) => Some(
                    SidecarState { step: StepState::Waking, idle_since: now, ..sidecar },
                ),
                None => None,
            },
            ..self
        }
    }

    /// A question goes out, over a screen and a history with nothing on them.
    pub open spec fn ask(self, key: Key, now: Instant) -> LookupState {
        match self.sidecar {
            Some(sidecar) => LookupState {
                want: None,
                sidecar: Some(
                    SidecarState {
                        grid: GridState { scrollback: Seq::empty(), ..sidecar.grid.reset() },
                        step: StepState::Asking(key, now),
                        idle_since: now,
                        ..sidecar
                    },
                ),
                ..self
            },
            None => self,
        }
    }

    /// One step of the session.
    pub open spec fn step(self, waited: int, now: Instant) -> PumpedState {
        match self.sidecar {
            None => PumpedState { after: self, moved: false, query: None },
            Some(sidecar) => match sidecar.step {
                StepState::Asking(key, _) => {
                    let answer = answer_of(lines_on(sidecar.grid));
                    if answer.complete {
                        PumpedState {
                            after: self.finish(
                                key,
                                Some(answer.maps.map_values(|m: (Seq<char>, MapState)| m.1)),
                                now,
                            ),
                            moved: true,
                            query: None,
                        }
                    } else if waited > ANSWER_TIMEOUT {
                        PumpedState { after: self.finish(key, None, now), moved: true, query: None }
                    } else {
                        PumpedState { after: self, moved: false, query: None }
                    }
                },
                StepState::Waking => match self.want {
                    Some((key, _)) => if can_be_asked(sidecar.grid) {
                        PumpedState {
                            after: self.ask(key, now),
                            moved: true,
                            query: Some(typed(query_lines(key.0, key.1))),
                        }
                    } else if waited > ANSWER_TIMEOUT {
                        PumpedState {
                            after: LookupState {
                                want: None,
                                cache: with_answer(self.cache, key, None),
                                ..self
                            },
                            moved: true,
                            query: None,
                        }
                    } else {
                        PumpedState { after: self, moved: false, query: None }
                    },
                    None => PumpedState { after: self, moved: false, query: None },
                },
            },
        }
    }

    /// The session is gone. Whatever it was asked stays unanswered rather than
    /// hanging a tooltip forever.
    pub open spec fn lose_session(self) -> LookupState {
        match self.sidecar {
            None => self,
            Some(sidecar) => LookupState {
                cache: match sidecar.step {
                    StepState::Asking(key, _) => with_answer(self.cache, key, None),
                    StepState::Waking => self.cache,
                },
                sidecar: None,
                ..self
            },
        }
    }

    /// One round: a step, then whether the session is gone or has been idle for
    /// too long. The clock of idleness starts again with every question and
    /// every answer.
    pub open spec fn pump(self, waited: int, idle: int, ended: bool, now: Instant) -> PumpedState {
        if self.sidecar is None {
            PumpedState { after: self, moved: false, query: None }
        } else {
            let stepped = self.step(waited, now);
            if ended {
                PumpedState { after: stepped.after.lose_session(), moved: true, ..stepped }
            } else if self.sidecar->0.step is Waking && stepped.after.sidecar->0.step is Waking
                && stepped.after.want is None && idle > IDLE_TIMEOUT {
                PumpedState { after: stepped.after.lose_session(), moved: true, ..stepped }
            } else {
                stepped
            }
        }
    }
}

// ---- copies -------------------------------------------------------------

fn copy_piece(piece: &PieceInfo) -> (out: PieceInfo)
    ensures
        out@ == piece@,
{
    let mut value_list: Vec<(String, String)> = Vec::new();
    let mut i: usize = 0;
    while i < piece.value_list.len()
        invariant
            i <= piece.value_list@.len(),
            value_list@.len() == i,
            forall|k: int|
                0 <= k < i ==> (#[trigger] value_list@[k]).0@ == piece.value_list@[k].0@
                    && value_list@[k].1@ == piece.value_list@[k].1@,
        decreases piece.value_list.len() - i,
    {
        value_list.push((piece.value_list[i].0.clone(), piece.value_list[i].1.clone()));
        i += 1;
    }
    assert(pairs(value_list@) =~= pairs(piece.value_list@));
    PieceInfo {
        piece: piece.piece,
        sub: piece.sub,
        sub_delim: piece.sub_delim,
        description: piece.description.clone(),
        size: piece.size.clone(),
        kind: piece.kind.clone(),
        value_list,
    }
}

fn copy_map(map: &MapInfo) -> (out: MapInfo)
    ensures
        out@ == map@,
{
    let mut fixed: Vec<(usize, String)> = Vec::new();
    let mut i: usize = 0;
    while i < map.fixed.len()
        invariant
            i <= map.fixed@.len(),
            fixed@.len() == i,
            forall|k: int|
                0 <= k < i ==> (#[trigger] fixed@[k]).0 == map.fixed@[k].0 && fixed@[k].1@
                    == map.fixed@[k].1@,
        decreases map.fixed.len() - i,
    {
        fixed.push((map.fixed[i].0, map.fixed[i].1.clone()));
        i += 1;
    }
    let mut pieces: Vec<PieceInfo> = Vec::new();
    let mut k: usize = 0;
    while k < map.pieces.len()
        invariant
            k <= map.pieces@.len(),
            pieces@.len() == k,
            forall|j: int| 0 <= j < k ==> (#[trigger] pieces@[j])@ == map.pieces@[j]@,
        decreases map.pieces.len() - k,
    {
        pieces.push(copy_piece(&map.pieces[k]));
        k += 1;
    }
    assert(fixed_states(fixed@) =~= fixed_states(map.fixed@));
    assert(piece_states(pieces@) =~= piece_states(map.pieces@));
    MapInfo { keys: map.keys, fixed, pieces }
}

fn copy_maps(maps: &Vec<MapInfo>) -> (out: Vec<MapInfo>)
    ensures
        map_states(out@) == map_states(maps@),
{
    let mut out: Vec<MapInfo> = Vec::new();
    let mut i: usize = 0;
    while i < maps.len()
        invariant
            i <= maps@.len(),
            out@.len() == i,
            forall|k: int| 0 <= k < i ==> (#[trigger] out@[k])@ == maps@[k]@,
        decreases maps.len() - i,
    {
        out.push(copy_map(&maps[i]));
        i += 1;
    }
    assert(map_states(out@) =~= map_states(maps@));
    out
}

// ---- carrying it out ----------------------------------------------------

/// Whether the session is sitting at a bare prompt and can be typed at.
///
/// It answers twice: once when the session has finished starting up, and again
/// after every answer, because the prompt IRIS prints at the end of one is what
/// says it is free for the next. Anything that clears the grid between answers
/// would therefore wedge the session for good.
pub fn ready_to_ask(grid: &Grid) -> (yes: bool)
    ensures
        yes == can_be_asked(grid@),
{
    match current(grid) {
        Some(line) => line.is_empty(),
        None => false,
    }
}

/// How a session is reached.
pub enum Way {
    /// At this address and port.
    Telnet(String, u16),
    /// On this machine.
    Local,
}

/// What a session has to have written back to it.
pub struct Heard {
    /// Replies the byte stream asked for.
    pub replies: Vec<u8>,
    /// What the unattended login types.
    pub typed: Option<Vec<u8>>,
}

impl Sidecar {
    /// A terminal for a session that has just been opened.
    pub fn new(profile: &Profile, password: Option<String>) -> (sidecar: Self)
        ensures
            sidecar@.wf(),
            sidecar@.grid == GridState::fresh(1024, 100, 4000),
            sidecar@.step is Waking,
            sidecar@.autologon == LogonState::fresh(
                *profile,
                opt_text(password),
                sidecar@.idle_since,
            ),
            sidecar@.taken == Seq::<u8>::empty(),
    {
        let now = Instant::now();
        Sidecar {
            parser: ByteParser::new(),
            grid: Grid::new(SIDECAR_COLS as usize, SIDECAR_ROWS as usize, SIDECAR_SCROLLBACK),
            autologon: Autologon::new_at(profile, password, now),
            step: Step::Waking,
            idle_since: now,
        }
    }

    /// Takes in what the session said: onto the screen, and past the unattended
    /// login. The clock has its say in both.
    pub fn hear(&mut self, bytes: &[u8], encoding: Encoding) -> (heard: Heard)
        requires
            old(self)@.wf(),
        ensures
            final(self)@.wf(),
            final(self)@.step == old(self)@.step,
            final(self)@.idle_since == old(self)@.idle_since,
            final(self)@.taken == old(self)@.taken + encoding.decoded(bytes@),
            comes_of(
                old(self)@.grid,
                actions_of(old(self)@.taken, encoding.decoded(bytes@)),
                Outcome { grid: final(self)@.grid, replies: heard.replies@ },
            ),
            exists|now: Instant, text: Option<Seq<char>>|
                (final(self)@.autologon, text) == old(self)@.autologon.observe(
                    final(self)@.grid,
                    #[trigger] nanos_apart(now, old(self)@.autologon.since) as int,
                    now,
                ) && match (heard.typed, #[trigger] sent(text, encoding)) {
                    (Some(typed), Some(bytes)) => typed@ == bytes,
                    (None, None) => true,
                    _ => false,
                },
    {
        let decoded = encoding.decode(bytes);
        let replies = advance(&mut self.parser, &mut self.grid, decoded.as_slice());
        let to_send = self.autologon.observe(&self.grid);
        let typed = match &to_send {
            Some(text) => Some(encoding.encode(text.as_str())),
            None => None,
        };
        proof {
            let now = choose|now: Instant|
                (self@.autologon, opt_text(to_send)) == old(self)@.autologon.observe(
                    self@.grid,
                    #[trigger] nanos_apart(now, old(self)@.autologon.since) as int,
                    now,
                );
            assert((self@.autologon, opt_text(to_send)) == old(self)@.autologon.observe(
                self@.grid,
                nanos_apart(now, old(self)@.autologon.since) as int,
                now,
            ));
            let _ = sent(opt_text(to_send), encoding);
        }
        Heard { replies, typed }
    }
}

/// Text as it goes out.
pub open spec fn sent(text: Option<Seq<char>>, encoding: Encoding) -> Option<Seq<u8>> {
    match text {
        Some(text) => Some(encoding.encoded(text)),
        None => None,
    }
}

impl Default for DocLookup {
    fn default() -> (lookup: Self)
        ensures
            lookup@ == (LookupState {
                cache: Seq::empty(),
                want: None,
                sidecar: None,
                unavailable: false,
            }),
    {
        let lookup = DocLookup {
            cache: Vec::new(),
            want: None,
            sidecar: None,
            unavailable: false,
        };
        assert(lookup@.cache =~= Seq::empty());
        lookup
    }
}

impl DocLookup {
    /// Where a global is remembered.
    fn find(&self, namespace: &str, global: &str) -> (at: Option<usize>)
        ensures
            match at {
                Some(i) => i < self.cache@.len() && place_of(
                    self@.cache,
                    (namespace@, global@),
                    0,
                ) == Some(i as int),
                None => place_of(self@.cache, (namespace@, global@), 0) is None,
            },
    {
        let ghost want = entries(self.cache@);
        let ghost key = (namespace@, global@);
        let mut i: usize = 0;
        while i < self.cache.len()
            invariant
                i <= self.cache@.len(),
                want == entries(self.cache@),
                key == (namespace@, global@),
                place_of(want, key, 0) == place_of(want, key, i as int),
            decreases self.cache.len() - i,
        {
            let entry = &self.cache[i];
            assert(want[i as int] == (entry.key(), entry.known()));
            if same(entry.namespace.as_str(), namespace) && same(entry.global.as_str(), global) {
                return Some(i);
            }
            i += 1;
        }
        None
    }

    /// Writes an answer down.
    pub fn remember(&mut self, namespace: String, global: String, answer: Option<Vec<MapInfo>>)
        ensures
            final(self)@ == (LookupState {
                cache: with_answer(
                    old(self)@.cache,
                    (namespace@, global@),
                    match answer {
                        Some(maps) => Some(map_states(maps@)),
                        None => None,
                    },
                ),
                ..old(self)@
            }),
    {
        let at = self.find(namespace.as_str(), global.as_str());
        let entry = Entry { namespace, global, answer };
        let ghost was = entries(self.cache@);
        match at {
            Some(i) => {
                self.cache[i] = entry;
                assert(entries(self.cache@) =~= was.update(i as int, (entry.key(), entry.known())));
            },
            None => {
                self.cache.push(entry);
                assert(entries(self.cache@) =~= was.push((entry.key(), entry.known())));
            },
        }
    }

    /// Asks for `global`'s piece structure in `namespace`, or returns what is
    /// already known.
    ///
    /// Cheap enough to call from a hover every frame: it only ever records what
    /// is wanted. A query already in flight is left to finish: a hover that
    /// drifts across a dump would otherwise queue a different global every
    /// frame and never settle on one.
    pub fn request(&mut self, namespace: &str, global: &str) -> (result: Lookup)
        ensures
            exists|now: Instant|
                (final(self)@, result@) == #[trigger] old(self)@.request(
                    (namespace@, global@),
                    now,
                ),
    {
        let now = Instant::now();
        let ghost want = old(self)@.request((namespace@, global@), now);
        if let Some(i) = self.find(namespace, global) {
            assert(entries(self.cache@)[i as int] == (
                self.cache@[i as int].key(),
                self.cache@[i as int].known(),
            ));
            return match &self.cache[i].answer {
                Some(maps) => Lookup::Ready(copy_maps(maps)),
                None => Lookup::NotFound,
            };
        }
        if self.unavailable {
            return Lookup::Unavailable;
        }
        if self.want.is_none() && !self.asking() {
            self.want = Some(
                Want {
                    namespace: namespace.to_owned(),
                    global: global.to_owned(),
                    since: now,
                },
            );
        }
        Lookup::Pending
    }

    fn asking(&self) -> (yes: bool)
        ensures
            yes == self@.asking(),
    {
        match &self.sidecar {
            Some(sidecar) => match sidecar.step {
                Step::Asking { .. } => true,
                Step::Waking => false,
            },
            None => false,
        }
    }

    /// Whether a session is to be opened.
    pub fn wants_session(&self) -> (yes: bool)
        ensures
            yes == (self@.want is Some && self@.sidecar is None),
    {
        self.want.is_some() && self.sidecar.is_none()
    }

    /// How to open the session that is asked, the way any other is opened -
    /// except for a shell, which has no globals to describe and so gets none at
    /// all.
    pub fn open(&mut self, profile: &Profile) -> (way: Option<Way>)
        ensures
            match way {
                None => profile.shell is Some && final(self)@ == (LookupState {
                    unavailable: true,
                    want: None,
                    ..old(self)@
                }),
                Some(Way::Telnet(address, port)) => {
                    &&& profile.shell is None
                    &&& profile.remote matches Some(remote)
                    &&& address@ == remote.address@
                    &&& port == remote.port
                    &&& final(self)@ == old(self)@
                },
                Some(Way::Local) => {
                    &&& profile.shell is None
                    &&& profile.remote is None
                    &&& final(self)@ == old(self)@
                },
            },
    {
        if profile.shell.is_some() {
            self.no_session();
            return None;
        }
        match &profile.remote {
            Some(remote) => Some(Way::Telnet(remote.address.clone(), remote.port)),
            None => Some(Way::Local),
        }
    }

    /// A session was opened.
    pub fn session_opened(&mut self, sidecar: Sidecar)
        ensures
            final(self)@ == (LookupState { sidecar: Some(sidecar@), ..old(self)@ }),
    {
        self.sidecar = Some(sidecar);
    }

    /// There is no session to be had: opening it failed, or the profile is a
    /// shell.
    pub fn no_session(&mut self)
        ensures
            final(self)@ == (LookupState { unavailable: true, want: None, ..old(self)@ }),
    {
        self.unavailable = true;
        self.want = None;
    }

    /// Records an answer and stands the session down to wait for the next one.
    ///
    /// Deliberately does not touch the grid: the prompt IRIS printed after the
    /// answer is the only thing that says the session is free again.
    fn finish(
        &mut self,
        namespace: String,
        global: String,
        answer: Option<Vec<MapInfo>>,
        now: Instant,
    )
        ensures
            final(self)@ == old(self)@.finish(
                (namespace@, global@),
                match answer {
                    Some(maps) => Some(map_states(maps@)),
                    None => None,
                },
                now,
            ),
    {
        self.remember(namespace, global, answer);
        if let Some(mut sidecar) = self.sidecar.take() {
            sidecar.step = Step::Waking;
            sidecar.idle_since = now;
            self.sidecar = Some(sidecar);
        }
    }

    /// The next question, typed over a screen with nothing on it.
    ///
    /// Everything this session has ever said is dropped first, so the previous
    /// answer's markers cannot be read as this one's. A reset files the screen
    /// into the scrollback, which is searched here, so that has to go too.
    fn ask(&mut self, namespace: String, global: String, now: Instant) -> (query: String)
        requires
            old(self)@.wf(),
            old(self)@.sidecar is Some,
            old(self)@.want is None,
        ensures
            final(self)@ == old(self)@.ask((namespace@, global@), now),
            final(self)@.wf(),
            query@ == typed(query_lines(namespace@, global@)),
    {
        let query = build_query(namespace.as_str(), global.as_str());
        if let Some(mut sidecar) = self.sidecar.take() {
            sidecar.grid.reset();
            let ghost reset = sidecar.grid@;
            sidecar.grid.scrollback.clear();
            assert(sidecar.grid@ =~= GridState { scrollback: Seq::empty(), ..reset });
            sidecar.step = Step::Asking { namespace, global, since: now };
            sidecar.idle_since = now;
            self.sidecar = Some(sidecar);
        }
        query
    }

    /// One step: an answer read, a question asked, or one given up on.
    fn step(&mut self, waited: u128, now: Instant) -> (pumped: Pumped)
        requires
            old(self)@.wf(),
        ensures
            ({
                let want = old(self)@.step(waited as int, now);
                &&& final(self)@ == want.after
                &&& pumped.moved == want.moved
                &&& opt_text(pumped.query) == want.query
            }),
            final(self)@.wf(),
            final(self)@.sidecar is Some == old(self)@.sidecar is Some,
    {
        let (ready, read, question) = match &self.sidecar {
            None => return Pumped { moved: false, query: None },
            Some(sidecar) => match &sidecar.step {
                Step::Waking => (ready_to_ask(&sidecar.grid), None, None),
                Step::Asking { namespace, global, since: _ } => {
                    let lines = sidecar.grid.all_text();
                    assert(texts(lines@) =~= lines_on(sidecar.grid@));
                    (
                        false,
                        parse_answer(lines.as_slice()),
                        Some((namespace.clone(), global.clone())),
                    )
                },
            },
        };
        match question {
            Some((namespace, global)) => {
                match read {
                    Some(maps) => {
                        self.finish(namespace, global, Some(maps), now);
                        Pumped { moved: true, query: None }
                    },
                    None => {
                        if waited > ANSWER_TIMEOUT {
                            self.finish(namespace, global, None, now);
                            Pumped { moved: true, query: None }
                        } else {
                            Pumped { moved: false, query: None }
                        }
                    },
                }
            },
            None => match self.want.take() {
                None => Pumped { moved: false, query: None },
                Some(want) => {
                    if ready {
                        let query = self.ask(want.namespace, want.global, now);
                        Pumped { moved: true, query: Some(query) }
                    } else if waited > ANSWER_TIMEOUT {
                        self.remember(want.namespace, want.global, None);
                        Pumped { moved: true, query: None }
                    } else {
                        self.want = Some(want);
                        Pumped { moved: false, query: None }
                    }
                },
            },
        }
    }

    /// The session is gone, or what was to be typed into it could not be.
    pub fn lose_session(&mut self)
        ensures
            final(self)@ == old(self)@.lose_session(),
            final(self)@.wf(),
    {
        if let Some(sidecar) = self.sidecar.take() {
            if let Step::Asking { namespace, global, since: _ } = sidecar.step {
                self.remember(namespace, global, None);
            }
        }
    }

    /// [`DocLookup::pump`] with the moment given, how long the question has
    /// waited, and how long the session has had nothing to do.
    pub fn pump_after(&mut self, waited: u128, idle: u128, ended: bool, now: Instant) -> (pumped:
        Pumped)
        requires
            old(self)@.wf(),
        ensures
            ({
                let want = old(self)@.pump(waited as int, idle as int, ended, now);
                &&& final(self)@ == want.after
                &&& pumped.moved == want.moved
                &&& opt_text(pumped.query) == want.query
            }),
            final(self)@.wf(),
    {
        if self.sidecar.is_none() {
            return Pumped { moved: false, query: None };
        }
        let was_asking = self.asking();
        let pumped = self.step(waited, now);
        if ended {
            self.lose_session();
            return Pumped { moved: true, query: pumped.query };
        }
        if !was_asking && !self.asking() && self.want.is_none() && idle > IDLE_TIMEOUT {
            self.lose_session();
            return Pumped { moved: true, query: pumped.query };
        }
        pumped
    }

    /// Drives the session once what it said has been heard: reads its answer,
    /// asks the next question when it is ready for one, and lets it go once it
    /// has ended or been idle a while.
    ///
    /// The query that comes back is to be typed into the session; if that
    /// fails, the session is lost.
    pub fn pump(&mut self, ended: bool) -> (pumped: Pumped)
        requires
            old(self)@.wf(),
        ensures
            final(self)@.wf(),
            exists|now: Instant|
                {
                    let want = old(self)@.pump(
                        #[trigger] old(self)@.waited_by(now),
                        old(self)@.idle_by(now),
                        ended,
                        now,
                    );
                    &&& final(self)@ == want.after
                    &&& pumped.moved == want.moved
                    &&& opt_text(pumped.query) == want.query
                },
    {
        let now = Instant::now();
        let (waited, idle) = match &self.sidecar {
            None => (0, 0),
            Some(sidecar) => {
                let waited = match &sidecar.step {
                    Step::Asking { namespace: _, global: _, since } => nanos_between(&now, since),
                    Step::Waking => match &self.want {
                        Some(want) => nanos_between(&now, &want.since),
                        None => 0,
                    },
                };
                (waited, nanos_between(&now, &sidecar.idle_since))
            },
        };
        assert(waited == old(self)@.waited_by(now));
        self.pump_after(waited, idle, ended, now)
    }
}

// ---- laws ---------------------------------------------------------------

proof fn place_is_found(cache: Seq<(Key, Known)>, key: Key, from: int)
    requires
        0 <= from <= cache.len(),
    ensures
        match place_of(cache, key, from) {
            Some(i) => from <= i < cache.len() && cache[i].0 == key,
            None => forall|i: int| from <= i < cache.len() ==> (#[trigger] cache[i]).0 != key,
        },
    decreases cache.len() - from,
{
    if from < cache.len() && cache[from].0 != key {
        place_is_found(cache, key, from + 1);
    }
}

proof fn place_is_first(cache: Seq<(Key, Known)>, key: Key, from: int, at: int)
    requires
        0 <= from <= at < cache.len(),
        cache[at].0 == key,
        forall|i: int| from <= i < at ==> (#[trigger] cache[i]).0 != key,
    ensures
        place_of(cache, key, from) == Some(at),
    decreases at - from,
{
    if from < at {
        assert(cache[from].0 != key);
        place_is_first(cache, key, from + 1, at);
    }
}

/// What was written down is what is remembered, and nothing that is remembered
/// about another global changes.
pub proof fn an_answer_is_remembered(
    cache: Seq<(Key, Known)>,
    key: Key,
    known: Known,
    other: Key,
)
    requires
        other != key,
    ensures
        remembered(with_answer(cache, key, known), key) == Some(known),
        remembered(with_answer(cache, key, known), other) == remembered(cache, other),
{
    let after = with_answer(cache, key, known);
    place_is_found(cache, key, 0);
    place_is_found(cache, other, 0);
    place_is_found(after, key, 0);
    place_is_found(after, other, 0);
    match place_of(cache, key, 0) {
        Some(i) => {
            first_before(cache, key, 0);
            assert forall|j: int| 0 <= j < i implies (#[trigger] after[j]).0 != key by {
                assert(after[j] == cache[j]);
            }
            place_is_first(after, key, 0, i);
        },
        None => {
            assert forall|j: int| 0 <= j < cache.len() implies (#[trigger] after[j]).0 != key by {
                assert(after[j] == cache[j]);
            }
            place_is_first(after, key, 0, cache.len() as int);
        },
    }
    match place_of(cache, other, 0) {
        Some(i) => {
            first_before(cache, other, 0);
            assert(after[i].0 == other && after[i] == cache[i]);
            assert forall|j: int| 0 <= j < i implies (#[trigger] after[j]).0 != other by {
                assert(cache[j].0 != other);
            }
            place_is_first(after, other, 0, i);
        },
        None => {
            if let Some(i) = place_of(after, other, 0) {
                assert(after[i].0 == other);
                if i < cache.len() {
                    assert(cache[i].0 != other);
                }
            }
        },
    }
}

proof fn first_before(cache: Seq<(Key, Known)>, key: Key, from: int)
    requires
        0 <= from <= cache.len(),
        place_of(cache, key, from) is Some,
    ensures
        from <= place_of(cache, key, from)->0 < cache.len(),
        forall|i: int|
            from <= i < place_of(cache, key, from)->0 ==> (#[trigger] cache[i]).0 != key,
    decreases cache.len() - from,
{
    if from < cache.len() && cache[from].0 != key {
        first_before(cache, key, from + 1);
    }
}

/// A global is asked about once: as soon as anything is remembered about it, a
/// hover gets that and nothing is queued.
pub proof fn what_is_known_is_not_asked_again(lookup: LookupState, key: Key, now: Instant)
    requires
        remembered(lookup.cache, key) is Some,
    ensures
        lookup.request(key, now).0 == lookup,
        !(lookup.request(key, now).1 is Pending),
{
}

/// A hover never displaces the question that is already waiting, nor one that
/// is being answered.
pub proof fn a_second_hover_waits_its_turn(lookup: LookupState, key: Key, now: Instant)
    requires
        lookup.want is Some || lookup.asking(),
    ensures
        lookup.request(key, now).0 == lookup,
{
}

/// Losing the session leaves no question hanging: what it was being asked is
/// remembered as unanswered.
pub proof fn a_lost_session_answers_its_question(lookup: LookupState, key: Key, other: Key)
    requires
        lookup.sidecar matches Some(sidecar) && sidecar.step matches StepState::Asking(asked, _)
            && asked == key,
        other != key,
    ensures
        remembered(lookup.lose_session().cache, key) == Some(None::<Seq<MapState>>),
        lookup.lose_session().sidecar is None,
{
    an_answer_is_remembered(lookup.cache, key, None, other);
}

/// The session is left free by an answer: its screen is not touched, so the
/// prompt that follows the answer is still there to be asked at.
pub proof fn an_answer_leaves_the_screen_alone(
    lookup: LookupState,
    key: Key,
    known: Known,
    now: Instant,
)
    requires
        lookup.sidecar is Some,
    ensures
        lookup.finish(key, known, now).sidecar->0.grid == lookup.sidecar->0.grid,
        !lookup.finish(key, known, now).asking(),
{
}

} // verus!
