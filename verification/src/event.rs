//! What the engine hands to its host: events with their payloads, the
//! states it can be in, and the errors it reports.

use vstd::prelude::*;

verus! {

/// What made the engine pause.
#[derive(Clone, Copy, Debug, PartialEq, Eq, Structural)]
pub enum DialogueEvent {
    /// A line is ready to be shown.
    Line,
    /// A command is ready to be run.
    Command,
    /// Options are ready, and one of them has to be selected.
    Options,
}

/// Where the engine stands between two calls.
#[derive(Clone, Copy, Debug, PartialEq, Eq, Structural)]
pub enum ExecutionState {
    /// Nothing has run yet, or the program has halted.
    Stopped,
    /// Options were shown; one has to be selected before the engine goes on.
    WaitingOnOptionSelection,
    /// A line or a command was handed out; the engine goes on when asked.
    WaitingForContinue,
    /// The engine is in the middle of a run. A host sees this state only
    /// after a run has failed.
    Running,
}

/// A call that the state of the engine does not allow.
#[derive(Clone, Copy, Debug, PartialEq, Eq, Structural)]
pub enum ContractViolation {
    /// The engine was asked to go on in the middle of a run.
    AlreadyRunning,
    /// The engine was asked to go on while it waits for an option.
    WaitingForOption,
    /// An option was selected while the engine does not wait for one.
    NotWaitingForOption,
    /// The selected option is not in the list.
    OptionOutOfBounds,
}

/// What is wrong with a program that cannot be run any further.
#[derive(Clone, Copy, Debug, PartialEq, Eq, Structural)]
pub enum ProgramFault {
    /// The current node is not in the node table.
    UnknownNode,
    /// The instruction pointer is beyond the last instruction of the node.
    NoInstruction,
    /// The instruction lacks an operand, or the operand holds nothing.
    MissingOperand,
    /// An operand holds a value of the wrong kind.
    UnexpectedOperand,
    /// The stack holds fewer values than the instruction takes.
    StackUnderflow,
    /// The stack holds a value of the wrong kind.
    UnexpectedValue,
    /// A jump names a label that the current node does not have.
    UnknownLabel,
    /// A variable is read that has never been set.
    UnknownVariable,
    /// The operation is reserved and not supported.
    UnsupportedOperation,
    /// The run took as many instructions as it was allowed without reaching
    /// a pause or the end.
    NoYield,
}

/// Why a call failed.
#[derive(Clone, Copy, Debug, PartialEq, Eq, Structural)]
pub enum DialogueError {
    /// The host made a call that the state of the engine does not allow.
    Misuse(ContractViolation),
    /// The program is malformed.
    Malformed(ProgramFault),
}

/// The views of a sequence of texts, one by one.
pub open spec fn texts_view(texts: Seq<String>) -> Seq<Seq<char>> {
    texts.map_values(|text: String| text@)
}

/// A line of dialogue: the key of its text in a string table, and the texts
/// to put into it.
#[derive(Debug)]
pub struct DialogueLine {
    /// The key under which a string table holds the text of this line.
    pub id: String,
    /// The texts that take the place of the placeholders in the text.
    pub substitutions: Vec<String>,
}

/// What a [`DialogueLine`] is in contracts.
pub ghost struct LineView {
    pub id: Seq<char>,
    pub substitutions: Seq<Seq<char>>,
}

impl View for DialogueLine {
    type V = LineView;

    open spec fn view(&self) -> LineView {
        LineView { id: self.id@, substitutions: texts_view(self.substitutions@) }
    }
}

impl Clone for DialogueLine {
    fn clone(&self) -> (copy: Self)
        ensures
            copy@ == self@,
    {
        let mut substitutions: Vec<String> = Vec::new();
        let mut i: usize = 0;
        while i < self.substitutions.len()
            invariant
                i <= self.substitutions@.len(),
                substitutions@.len() == i,
                forall|j: int|
                    0 <= j < i ==> (#[trigger] substitutions@[j])@ == self.substitutions@[j]@,
            decreases self.substitutions@.len() - i,
        {
            substitutions.push(self.substitutions[i].clone());
            i += 1;
        }
        assert(texts_view(substitutions@) =~= texts_view(self.substitutions@));
        DialogueLine { id: self.id.clone(), substitutions }
    }
}

impl Default for DialogueLine {
    fn default() -> (line: Self)
        ensures
            line@ == (LineView { id: Seq::empty(), substitutions: Seq::empty() }),
    {
        let line = DialogueLine { id: String::new(), substitutions: Vec::new() };
        assert(texts_view(line.substitutions@) =~= Seq::<Seq<char>>::empty());
        line
    }
}

/// One of the options that a player can choose from.
#[derive(Debug)]
pub struct DialogueOption {
    /// The number of this option, by which it is selected.
    pub index: usize,
    /// The line to show for this option.
    pub line: DialogueLine,
    /// The node that runs if this option is selected.
    pub destination: String,
    /// Whether the player may choose this option.
    pub available: bool,
}

/// What a [`DialogueOption`] is in contracts.
pub ghost struct OptionView {
    pub index: int,
    pub line: LineView,
    pub destination: Seq<char>,
    pub available: bool,
}

impl View for DialogueOption {
    type V = OptionView;

    open spec fn view(&self) -> OptionView {
        OptionView {
            index: self.index as int,
            line: self.line@,
            destination: self.destination@,
            available: self.available,
        }
    }
}

impl Clone for DialogueOption {
    fn clone(&self) -> (copy: Self)
        ensures
            copy@ == self@,
    {
        DialogueOption {
            index: self.index,
            line: self.line.clone(),
            destination: self.destination.clone(),
            available: self.available,
        }
    }
}

/// The views of a sequence of options, one by one.
pub open spec fn options_view(options: Seq<DialogueOption>) -> Seq<OptionView> {
    options.map_values(|option: DialogueOption| option@)
}

} // verus!
