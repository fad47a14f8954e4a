//! Commands typed at an IRIS prompt, recalled with Up and Down.
//!
//! IRIS recalls within a session and forgets everything the moment the process
//! ends. This keeps the same list on this side and, when the setting allows it,
//! on disk, so Up reaches back past the session that is open now.
//!
//! What Up reaches is per session: a tab offers back what was typed at *its*
//! prompt, and only once those run out does it go on to the commands inherited
//! from earlier runs. A command typed in another tab a minute ago is not
//! offered here at all. See [`History::recall_list`].

use vstd::prelude::*;
use vstd::utf8::encode_utf8;

use crate::term::state::last_of;
use crate::text::{
    chars_of, end_of_trimmed, join_from, joined, joined_is_split_again, opt_text, same, split,
    split_chars, text_between, text_of, texts, texts_push, to_chars, trim, trim_end, trimmed,
    views,
};

verus! {

broadcast use texts_push;

/// How many commands are kept. Enough to cover a working day of a routine being
/// compiled and re-run; small enough to load without thinking about it.
pub const LIMIT: usize = 500;

/// Longest command that is worth keeping, in bytes. A pasted block of
/// ObjectScript is not something anyone recalls with Up, and it would push out
/// everything that is.
pub const MAX_LEN: usize = 2_000;

pub struct History {
    /// Oldest first, so the newest entry is what Up reaches first. Everything
    /// typed in this run, in any tab, plus whatever was loaded from the file.
    /// This is what is saved for the next start.
    pub entries: Vec<String>,
    /// The commands from earlier sessions. Fixed for the run, because it is
    /// what every tab falls back to once its own commands run out, and a tab
    /// must not start offering back what another tab typed while it was open.
    pub earlier: Vec<String>,
    /// Where to write. `None` means memory only: the setting is off, so nothing
    /// touches the disk.
    pub file: Option<String>,
}

/// A [`History`] as a mathematical value.
#[verifier::ext_equal]
pub struct HistoryState {
    pub entries: Seq<Seq<char>>,
    pub earlier: Seq<Seq<char>>,
    pub file: Option<Seq<char>>,
}

impl View for History {
    type V = HistoryState;

    open spec fn view(&self) -> HistoryState {
        HistoryState {
            entries: texts(self.entries@),
            earlier: texts(self.earlier@),
            file: opt_text(self.file),
        }
    }
}

// ---- lists of commands --------------------------------------------------

/// The bytes a text takes up.
pub open spec fn byte_len(s: Seq<char>) -> usize {
    encode_utf8(s).len() as usize
}

/// Whether a trimmed line is a command worth keeping.
pub open spec fn worth_keeping(command: Seq<char>) -> bool {
    command.len() > 0 && byte_len(command) <= MAX_LEN
}

/// A list without one of its commands.
pub open spec fn without(entries: Seq<Seq<char>>, command: Seq<char>) -> Seq<Seq<char>>
    decreases entries.len(),
{
    if entries.len() == 0 {
        Seq::empty()
    } else if entries.last() == command {
        without(entries.drop_last(), command)
    } else {
        without(entries.drop_last(), command).push(entries.last())
    }
}

/// A list with a command at its end, and nowhere else, capped at the newest.
pub open spec fn with_recent(entries: Seq<Seq<char>>, command: Seq<char>) -> Seq<Seq<char>> {
    last_of(without(entries, command).push(command), LIMIT as int)
}

/// Drops the oldest of a list down to the limit.
fn cap(entries: &mut Vec<String>)
    ensures
        texts(final(entries)@) == last_of(texts(old(entries)@), LIMIT as int),
{
    if entries.len() > LIMIT {
        let excess = entries.len() - LIMIT;
        let tail = entries.split_off(excess);
        assert(texts(tail@) =~= texts(old(entries)@).skip(excess as int));
        *entries = tail;
    }
}

/// Adds a command to a most-recent-last list, and says whether it changed.
///
/// One definition of what is worth keeping, shared by the file and by each
/// session's own list: blank and enormous lines are not commands, a repeat is
/// moved to the end rather than added again, and the list is capped.
pub fn push_recent(entries: &mut Vec<String>, command: &str) -> (changed: bool)
    ensures
        changed == worth_keeping(trim(command@)),
        texts(final(entries)@) == if changed {
            with_recent(texts(old(entries)@), trim(command@))
        } else {
            texts(old(entries)@)
        },
{
    let text = trimmed(command);
    if text.as_str().is_empty() || text.as_str().len() > MAX_LEN {
        return false;
    }
    let ghost was = texts(entries@);
    let mut kept: Vec<String> = Vec::new();
    let mut i: usize = 0;
    assert(was.take(0) =~= Seq::empty());
    assert(texts(kept@) =~= Seq::empty());
    while i < entries.len()
        invariant
            i <= entries@.len(),
            entries@ == old(entries)@,
            was == texts(entries@),
            texts(kept@) == without(was.take(i as int), text@),
        decreases entries.len() - i,
    {
        assert(was.take(i + 1).drop_last() =~= was.take(i as int));
        assert(was[i as int] == entries@[i as int]@);
        if !same(entries[i].as_str(), text.as_str()) {
            kept.push(entries[i].clone());
        }
        i += 1;
    }
    assert(was.take(i as int) =~= was);
    kept.push(text);
    cap(&mut kept);
    *entries = kept;
    true
}

// ---- the file -----------------------------------------------------------

/// The lines that have something on them, without the blanks at their ends.
pub open spec fn commands_in(lines: Seq<Seq<char>>) -> Seq<Seq<char>>
    decreases lines.len(),
{
    if lines.len() == 0 {
        Seq::empty()
    } else if trim_end(lines.last()).len() == 0 {
        commands_in(lines.drop_last())
    } else {
        commands_in(lines.drop_last()).push(trim_end(lines.last()))
    }
}

/// The commands a file holds. One that grew past the limit, or was edited by
/// hand, must not make the list unbounded.
pub open spec fn loaded(text: Seq<char>) -> Seq<Seq<char>> {
    last_of(commands_in(split(text, '\n')), LIMIT as int)
}

/// The file that holds these commands: one a line.
pub open spec fn saved(entries: Seq<Seq<char>>) -> Seq<char> {
    joined(entries).push('\n')
}

impl Default for History {
    fn default() -> (history: Self)
        ensures
            history@ == (HistoryState {
                entries: Seq::empty(),
                earlier: Seq::empty(),
                file: None,
            }),
    {
        let history = History { entries: Vec::new(), earlier: Vec::new(), file: None };
        assert(history@ =~= HistoryState {
            entries: Seq::empty(),
            earlier: Seq::empty(),
            file: None,
        });
        history
    }
}

impl History {
    /// Takes over the saved commands when `persist` is set, and otherwise
    /// starts empty and stays in memory. `contents` is what the file holds, if
    /// it could be read.
    pub fn load(path: &str, persist: bool, contents: Option<&str>) -> (history: Self)
        ensures
            history@ == if persist {
                let entries = match contents {
                    Some(text) => loaded(text@),
                    None => Seq::empty(),
                };
                HistoryState { entries, earlier: entries, file: Some(path@) }
            } else {
                HistoryState { entries: Seq::empty(), earlier: Seq::empty(), file: None }
            },
    {
        if !persist {
            return History::default();
        }
        let (entries, earlier) = match contents {
            Some(text) => (History::from_text(text), History::from_text(text)),
            None => (Vec::new(), Vec::new()),
        };
        let history = History { entries, earlier, file: Some(path.to_owned()) };
        proof {
            if contents is None {
                assert(texts(entries@) =~= Seq::empty());
                assert(texts(earlier@) =~= Seq::empty());
            }
        }
        history
    }

    pub fn from_text(text: &str) -> (entries: Vec<String>)
        ensures
            texts(entries@) == loaded(text@),
    {
        let chars = chars_of(text);
        let lines = split_chars(chars.as_slice(), '\n');
        let ghost want = views(lines@);
        let mut entries: Vec<String> = Vec::new();
        let mut i: usize = 0;
        assert(want.take(0) =~= Seq::empty());
        assert(texts(entries@) =~= Seq::empty());
        while i < lines.len()
            invariant
                i <= lines@.len(),
                want == views(lines@),
                texts(entries@) == commands_in(want.take(i as int)),
            decreases lines.len() - i,
        {
            let line = lines[i].as_slice();
            let len = line.len();
            assert(want.take(i + 1).drop_last() =~= want.take(i as int));
            assert(want[i as int] =~= line@.subrange(0, len as int));
            let end = end_of_trimmed(line, 0, len);
            if end > 0 {
                entries.push(text_between(line, 0, end));
            }
            i += 1;
        }
        assert(want.take(i as int) =~= want);
        cap(&mut entries);
        entries
    }

    /// What the file is to hold, if there is one.
    pub fn to_save(&self) -> (text: Option<String>)
        ensures
            opt_text(text) == match self@.file {
                Some(_) => Some(saved(self@.entries)),
                None => None,
            },
    {
        if self.file.is_none() {
            return None;
        }
        let lines = to_chars(self.entries.as_slice());
        let mut chars = join_from(&lines, 0);
        assert(views(lines@).skip(0) =~= views(lines@));
        chars.push('\n');
        Some(text_of(chars.as_slice()))
    }

    /// Turns saving on or off, and says whether what is already remembered is
    /// to be written now: when it is turned on, so the switch is not silently
    /// retroactive.
    pub fn set_persist(&mut self, path: &str, persist: bool) -> (write: bool)
        ensures
            write == (persist && old(self)@.file is None),
            final(self)@ == (HistoryState {
                file: if persist {
                    if old(self)@.file is Some {
                        old(self)@.file
                    } else {
                        Some(path@)
                    }
                } else {
                    None
                },
                ..old(self)@
            }),
    {
        if persist && self.file.is_none() {
            self.file = Some(path.to_owned());
            true
        } else {
            if !persist {
                self.file = None;
            }
            false
        }
    }

    pub fn entries(&self) -> (entries: &[String])
        ensures
            texts(entries@) == self@.entries,
    {
        self.entries.as_slice()
    }

    /// The commands from earlier sessions, oldest first. What a tab falls back
    /// to once its own are exhausted.
    pub fn earlier(&self) -> (earlier: &[String])
        ensures
            texts(earlier@) == self@.earlier,
    {
        self.earlier.as_slice()
    }

    pub fn is_empty(&self) -> (yes: bool)
        ensures
            yes == (self@.entries.len() == 0),
    {
        self.entries.len() == 0
    }

    /// What Up walks through for a session whose own commands are `own`, newest
    /// first.
    ///
    /// The session's own come first, so Up in a tab reaches what was typed in
    /// that tab; then the ones inherited from earlier runs, with anything the
    /// session has already typed left out so no command is offered twice.
    pub fn recall_list<'a>(&'a self, own: &'a [String]) -> (list: Vec<&'a str>)
        ensures
            offered(list@) == recalled(self@.earlier, texts(own@)),
    {
        let mut list: Vec<&'a str> = Vec::new();
        let ghost mine = texts(own@);
        let mut i: usize = own.len();
        assert(offered(list@) =~= mine.skip(i as int).reverse());
        while i > 0
            invariant
                i <= own@.len(),
                mine == texts(own@),
                offered(list@) =~= mine.skip(i as int).reverse(),
            decreases i,
        {
            i -= 1;
            let ghost before = offered(list@);
            let ghost rest = mine.skip(i + 1);
            list.push(own[i].as_str());
            assert(offered(list@) =~= before.push(mine[i as int]));
            assert(mine.skip(i as int) =~= seq![mine[i as int]] + rest);
        }
        assert(mine.skip(0) =~= mine);
        let ghost head = offered(list@);
        let ghost old_ones = self@.earlier;
        let mut k: usize = self.earlier.len();
        assert(old_ones.skip(k as int) =~= Seq::empty());
        assert(head + inherited(Seq::empty(), mine) =~= head);
        while k > 0
            invariant
                k <= self.earlier@.len(),
                mine == texts(own@),
                old_ones == texts(self.earlier@),
                offered(list@) =~= head + inherited(old_ones.skip(k as int), mine),
            decreases k,
        {
            k -= 1;
            let ghost rest = old_ones.skip(k + 1);
            assert(old_ones.skip(k as int).skip(1) =~= rest);
            assert(old_ones.skip(k as int)[0] == self.earlier@[k as int]@);
            if !holds(own, self.earlier[k].as_str()) {
                let ghost before = offered(list@);
                list.push(self.earlier[k].as_str());
                assert(offered(list@) =~= before.push(old_ones[k as int]));
            }
        }
        assert(old_ones.skip(0) =~= old_ones);
        list
    }

    /// Records a command, most recent last, and says whether anything changed
    /// and so is to be saved.
    pub fn record(&mut self, command: &str) -> (changed: bool)
        ensures
            changed == worth_keeping(trim(command@)),
            final(self)@ == (HistoryState {
                entries: if changed {
                    with_recent(old(self)@.entries, trim(command@))
                } else {
                    old(self)@.entries
                },
                ..old(self)@
            }),
    {
        push_recent(&mut self.entries, command)
    }

    /// Forgets everything, which is to be saved too when saving is on.
    pub fn clear(&mut self)
        ensures
            final(self)@ == (HistoryState {
                entries: Seq::empty(),
                earlier: Seq::empty(),
                ..old(self)@
            }),
    {
        self.entries = Vec::new();
        self.earlier = Vec::new();
        assert(texts(self.entries@) =~= Seq::empty());
        assert(texts(self.earlier@) =~= Seq::empty());
    }
}

/// The characters of each string.
pub open spec fn offered(list: Seq<&str>) -> Seq<Seq<char>> {
    list.map_values(|s: &str| s@)
}

/// The commands of earlier sessions, newest first, without those of `own`.
pub open spec fn inherited(earlier: Seq<Seq<char>>, own: Seq<Seq<char>>) -> Seq<Seq<char>>
    decreases earlier.len(),
{
    if earlier.len() == 0 {
        Seq::empty()
    } else if own.contains(earlier[0]) {
        inherited(earlier.skip(1), own)
    } else {
        inherited(earlier.skip(1), own).push(earlier[0])
    }
}

/// What Up walks through: a session's own commands, newest first, then the
/// inherited ones.
pub open spec fn recalled(earlier: Seq<Seq<char>>, own: Seq<Seq<char>>) -> Seq<Seq<char>> {
    own.reverse() + inherited(earlier, own)
}

fn holds(list: &[String], command: &str) -> (yes: bool)
    ensures
        yes == texts(list@).contains(command@),
{
    let ghost want = texts(list@);
    let mut i: usize = 0;
    while i < list.len()
        invariant
            i <= list@.len(),
            want == texts(list@),
            forall|k: int| 0 <= k < i ==> #[trigger] want[k] != command@,
        decreases list.len() - i,
    {
        assert(want[i as int] == list@[i as int]@);
        if same(list[i].as_str(), command) {
            return true;
        }
        i += 1;
    }
    false
}

/// Where Up lands, one step back from `at` through `len` candidates.
///
/// `Some(Some(step))` is a command to put on the line and `Some(None)` the line
/// the user started on; the outer `None` means there is nowhere to go, and the
/// line is left exactly as it is rather than being cleared.
pub fn step_back(at: Option<usize>, len: usize) -> (to: Option<Option<usize>>)
    ensures
        to == back(at, len),
{
    match at {
        None => if len > 0 {
            Some(Some(0))
        } else {
            None
        },
        Some(step) => if len > 0 && step < len - 1 {
            Some(Some(step + 1))
        } else {
            None
        },
    }
}

/// One candidate further, if there is one.
pub open spec fn back(at: Option<usize>, len: usize) -> Option<Option<usize>> {
    let next = match at {
        None => 0int,
        Some(step) => step + 1,
    };
    if next < len {
        Some(Some(next as usize))
    } else {
        None
    }
}

/// One candidate nearer, and past the newest back to the line the user was on.
pub open spec fn forward(at: Option<usize>) -> Option<Option<usize>> {
    match at {
        None => None,
        Some(step) => if step == 0 {
            Some(None)
        } else {
            Some(Some((step - 1) as usize))
        },
    }
}

/// Where Down lands. `None` when nothing has been recalled, which is not a key
/// to act on.
pub fn step_forward(at: Option<usize>) -> (to: Option<Option<usize>>)
    ensures
        to == forward(at),
{
    match at {
        None => None,
        Some(step) => if step == 0 {
            Some(None)
        } else {
            Some(Some(step - 1))
        },
    }
}

// ---- laws ---------------------------------------------------------------

/// Down undoes Up.
pub proof fn down_undoes_up(at: Option<usize>, len: usize)
    requires
        back(at, len) is Some,
    ensures
        forward(back(at, len)->0) == Some(at),
{
}

proof fn without_leaves_none(entries: Seq<Seq<char>>, command: Seq<char>)
    requires
        entries.no_duplicates(),
    ensures
        !without(entries, command).contains(command),
        without(entries, command).no_duplicates(),
        without(entries, command).len() <= entries.len(),
        forall|e: Seq<char>| #[trigger]
            without(entries, command).contains(e) ==> entries.contains(e),
    decreases entries.len(),
{
    if entries.len() > 0 {
        let before = without(entries.drop_last(), command);
        let all = without(entries, command);
        without_leaves_none(entries.drop_last(), command);
        assert forall|e: Seq<char>| #[trigger] all.contains(e) implies entries.contains(e) by {
            if before.contains(e) {
                let i = choose|i: int| 0 <= i < entries.drop_last().len() && entries.drop_last()[i] == e;
                assert(entries.drop_last().contains(e));
                assert(entries[i] == e);
            } else {
                let i = choose|i: int| 0 <= i < all.len() && all[i] == e;
                if i < before.len() {
                    assert(before[i] == e);
                }
                assert(entries[entries.len() - 1] == e);
            }
        }
        if entries.last() != command {
            if before.contains(entries.last()) {
                assert(entries.drop_last().contains(entries.last()));
                let i = choose|i: int|
                    0 <= i < entries.drop_last().len() && entries.drop_last()[i] == entries.last();
                assert(entries[i] == entries[entries.len() - 1]);
            }
            assert(all == before.push(entries.last()));
            if all.contains(command) {
                let i = choose|i: int| 0 <= i < all.len() && all[i] == command;
                if i < before.len() {
                    assert(before[i] == command);
                }
            }
        }
    }
}

/// A list of commands stays within its limit, never repeats one, and ends with
/// the newest.
pub proof fn a_list_keeps_the_newest_and_never_repeats(
    entries: Seq<Seq<char>>,
    command: Seq<char>,
)
    requires
        entries.no_duplicates(),
    ensures
        with_recent(entries, command).len() <= LIMIT,
        with_recent(entries, command).no_duplicates(),
        with_recent(entries, command).last() == command,
{
    without_leaves_none(entries, command);
    let list = without(entries, command).push(command);
    assert(list.no_duplicates()) by {
        assert forall|i: int, j: int| 0 <= i < list.len() && 0 <= j < list.len() && i != j implies list[i]
            != list[j] by {
            if i == list.len() - 1 {
                assert(without(entries, command)[j] == list[j]);
            } else if j == list.len() - 1 {
                assert(without(entries, command)[i] == list[i]);
            }
        }
    }
}

/// A session is offered its own commands first, newest first, and after them
/// nothing that it has typed itself.
pub proof fn own_commands_come_first(earlier: Seq<Seq<char>>, own: Seq<Seq<char>>)
    ensures
        recalled(earlier, own).take(own.len() as int) == own.reverse(),
        forall|i: int|
            own.len() <= i < recalled(earlier, own).len() ==> !own.contains(
                #[trigger] recalled(earlier, own)[i],
            ),
{
    assert(recalled(earlier, own).take(own.len() as int) =~= own.reverse());
    inherited_is_not_own(earlier, own);
    assert forall|i: int| own.len() <= i < recalled(earlier, own).len() implies !own.contains(
        #[trigger] recalled(earlier, own)[i],
    ) by {
        assert(recalled(earlier, own)[i] == inherited(earlier, own)[i - own.len()]);
    }
}

proof fn inherited_is_not_own(earlier: Seq<Seq<char>>, own: Seq<Seq<char>>)
    ensures
        forall|i: int|
            0 <= i < inherited(earlier, own).len() ==> !own.contains(
                #[trigger] inherited(earlier, own)[i],
            ),
    decreases earlier.len(),
{
    if earlier.len() > 0 {
        inherited_is_not_own(earlier.skip(1), own);
        let rest = inherited(earlier.skip(1), own);
        let all = inherited(earlier, own);
        assert forall|i: int| 0 <= i < all.len() implies !own.contains(#[trigger] all[i]) by {
            if i < rest.len() {
                assert(all[i] == rest[i]);
            }
        }
    }
}

/// Whether a command comes back from a file as it went in: it is not blank at
/// its end, and it is one line.
pub open spec fn storable(command: Seq<char>) -> bool {
    command.len() > 0 && trim_end(command) == command && !command.contains('\n')
}

proof fn commands_are_kept(lines: Seq<Seq<char>>)
    requires
        forall|i: int| 0 <= i < lines.len() ==> storable(#[trigger] lines[i]),
    ensures
        commands_in(lines) == lines,
    decreases lines.len(),
{
    if lines.len() > 0 {
        assert(storable(lines[lines.len() - 1]));
        assert forall|i: int| 0 <= i < lines.len() - 1 implies storable(
            #[trigger] lines.drop_last()[i],
        ) by {
            assert(storable(lines[i]));
        }
        commands_are_kept(lines.drop_last());
        assert(lines.drop_last().push(lines.last()) =~= lines);
    } else {
        assert(lines =~= Seq::empty());
    }
}

/// What was saved is what is loaded.
pub proof fn what_is_saved_is_loaded(entries: Seq<Seq<char>>)
    requires
        entries.len() <= LIMIT,
        forall|i: int| 0 <= i < entries.len() ==> storable(#[trigger] entries[i]),
    ensures
        loaded(saved(entries)) == entries,
{
    let text = saved(entries);
    if entries.len() == 0 {
        assert(text =~= seq!['\n']);
        assert(text.drop_last() =~= Seq::empty());
        reveal_with_fuel(split, 3);
        reveal_with_fuel(commands_in, 3);
        let lines = split(text, '\n');
        assert(lines =~= seq![Seq::empty(), Seq::empty()]);
        assert(lines.drop_last() =~= seq![Seq::empty()]);
        assert(lines.drop_last().drop_last() =~= Seq::empty());
        assert(commands_in(lines) =~= entries);
    } else {
        assert forall|i: int| 0 <= i < entries.len() implies !(#[trigger] entries[i]).contains(
            '\n',
        ) by {
            assert(storable(entries[i]));
        }
        joined_is_split_again(entries);
        assert(text.drop_last() =~= joined(entries));
        let lines = split(text, '\n');
        assert(lines == entries.push(Seq::empty()));
        assert(lines.drop_last() =~= entries);
        commands_are_kept(entries);
        assert(commands_in(lines) == commands_in(lines.drop_last()));
    }
}

} // verus!
