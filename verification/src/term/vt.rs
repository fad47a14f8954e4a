//! The byte-level state machine.
//!
//! `vte` decodes UTF-8 and frames the escape sequences; here its callbacks
//! become values, so that what they mean for the grid is an ordinary function.

use vstd::prelude::*;
use vstd::slice::slice_to_vec;

verus! {

/// One thing the byte stream asked for.
pub enum Action {
    /// A character to put on the screen.
    Print(char),
    /// A control character.
    Execute(u8),
    /// `ESC [`, parameters each with its sub-parameters, intermediates, and the
    /// final character.
    Csi(Vec<Vec<u16>>, Vec<u8>, char),
    /// `ESC`, intermediates, and the final byte.
    Esc(Vec<u8>, u8),
    /// `ESC ]` and its fields.
    Osc(Vec<Vec<u8>>),
}

/// An [`Action`] as a mathematical value.
pub enum ActionState {
    Print(char),
    Execute(u8),
    Csi(Seq<Seq<u16>>, Seq<u8>, char),
    Esc(Seq<u8>, u8),
    Osc(Seq<Seq<u8>>),
}

/// The lists behind a list of vectors.
pub open spec fn lists<T>(vecs: Seq<Vec<T>>) -> Seq<Seq<T>> {
    vecs.map_values(|v: Vec<T>| v@)
}

impl View for Action {
    type V = ActionState;

    open spec fn view(&self) -> ActionState {
        match *self {
            Action::Print(ch) => ActionState::Print(ch),
            Action::Execute(byte) => ActionState::Execute(byte),
            Action::Csi(params, intermediates, last) => ActionState::Csi(
                lists(params@),
                intermediates@,
                last,
            ),
            Action::Esc(intermediates, byte) => ActionState::Esc(intermediates@, byte),
            Action::Osc(fields) => ActionState::Osc(lists(fields@)),
        }
    }
}

/// The values of a run of actions.
pub open spec fn action_states(actions: Seq<Action>) -> Seq<ActionState> {
    actions.map_values(|a: Action| a@)
}

/// `vte`'s parser, an opaque value.
#[verifier::external_type_specification]
#[verifier::external_body]
pub struct ExParser<const N: usize>(vte::Parser<N>);

/// `vte`'s parameter list, of which only [`params_held`] is known.
#[verifier::external_type_specification]
#[verifier::external_body]
pub struct ExParams(vte::Params);

/// The parameters in the list, each with its sub-parameters.
pub uninterp spec fn params_held(params: vte::Params) -> Seq<Seq<u16>>;

/// Every callback that `vte` makes for the given bytes, from its initial state:
/// `print`, `execute`, `csi_dispatch`, `esc_dispatch` and `osc_dispatch`, in
/// order, without the flags that say how a sequence ended.
pub uninterp spec fn vte_actions(bytes: Seq<u8>) -> Seq<ActionState>;

/// Whether a byte never has to do with an escape sequence that no other byte
/// has started: ASCII, and not ESC.
pub open spec fn is_plain(byte: u8) -> bool {
    byte < 0x80 && byte != 0x1b
}

/// Whether every byte is plain.
pub open spec fn all_plain(bytes: Seq<u8>) -> bool {
    forall|i: int| 0 <= i < bytes.len() ==> is_plain(#[trigger] bytes[i])
}

/// What a plain byte asks for where no escape sequence is under way.
pub open spec fn plain_action(byte: u8) -> ActionState {
    if byte < 0x20 {
        ActionState::Execute(byte)
    } else {
        ActionState::Print(byte as char)
    }
}

/// What plain bytes ask for.
pub open spec fn plain_actions(bytes: Seq<u8>) -> Seq<ActionState> {
    bytes.map_values(|byte: u8| plain_action(byte))
}

/// `vte::Params::iter`: copies the list out.
#[verifier::external_body]
fn params_of(params: &vte::Params) -> (list: Vec<Vec<u16>>)
    ensures
        lists(list@) == params_held(*params),
{
    params.iter().map(|p| p.to_vec()).collect()
}

/// `vte::Parser::new`: a parser in its initial state.
pub assume_specification[ vte::Parser::new ]() -> (parser: vte::Parser)
;

/// Collects the callbacks of one step.
struct Recorder {
    actions: Vec<Action>,
}

impl vte::Perform for Recorder {
    fn print(&mut self, c: char) {
        self.actions.push(Action::Print(c));
    }

    fn execute(&mut self, byte: u8) {
        self.actions.push(Action::Execute(byte));
    }

    fn csi_dispatch(
        &mut self,
        params: &vte::Params,
        intermediates: &[u8],
        _ignore: bool,
        action: char,
    ) {
        self.actions.push(Action::Csi(params_of(params), slice_to_vec(intermediates), action));
    }

    fn esc_dispatch(&mut self, intermediates: &[u8], _ignore: bool, byte: u8) {
        self.actions.push(Action::Esc(slice_to_vec(intermediates), byte));
    }

    fn osc_dispatch(&mut self, params: &[&[u8]], _bell_terminated: bool) {
        let mut fields: Vec<Vec<u8>> = Vec::new();
        for i in 0..params.len() {
            fields.push(slice_to_vec(params[i]));
        }
        self.actions.push(Action::Osc(fields));
    }
}

/// A `vte` parser and the bytes it has been given since it was made.
pub struct ByteParser {
    machine: vte::Parser,
    taken: Ghost<Seq<u8>>,
}

impl ByteParser {
    /// The bytes given so far.
    pub closed spec fn taken(&self) -> Seq<u8> {
        self.taken@
    }

    pub fn new() -> (parser: Self)
        ensures
            parser.taken() == Seq::<u8>::empty(),
    {
        ByteParser { machine: vte::Parser::new(), taken: Ghost(Seq::empty()) }
    }

    /// `vte::Parser::advance`: gives the machine one byte and hands back the
    /// callbacks it made. They follow, in [`vte_actions`], those of the bytes
    /// before. As long as no byte has been anything but plain, each is printed
    /// or, if it is a control character, executed.
    #[verifier::external_body]
    pub(crate) fn take(&mut self, byte: u8) -> (actions: Vec<Action>)
        ensures
            final(self).taken() == old(self).taken().push(byte),
            vte_actions(final(self).taken()) == vte_actions(old(self).taken()) + action_states(
                actions@,
            ),
            all_plain(final(self).taken()) ==> action_states(actions@) == seq![plain_action(byte)],
    {
        let mut recorder = Recorder { actions: Vec::new() };
        self.machine.advance(&mut recorder, byte);
        recorder.actions
    }
}

} // verus!
