//! The engine as a host sees it: it takes programs in, runs until there is
//! something to show or to ask, and takes the answer.

use crate::event::{
    options_view, ContractViolation, DialogueError, DialogueEvent, DialogueLine, DialogueOption,
    ExecutionState, ProgramFault,
};
use crate::machine::{Flow, Machine};
use crate::program::{values_view, Node, Program, Value, ValueView};
use crate::semantics;
use crate::semantics::{DialogueView, MachineView};
use crate::table::Table;
use vstd::prelude::*;

verus! {

/// The number of instructions that one call of [`Dialogue::advance`] may
/// run.
pub const STEP_LIMIT: u64 = 0xffff_ffff_ffff_ffff;

/// The engine for one conversation.
pub struct Dialogue {
    nodes: Table<Node>,
    machine: Machine,
}

impl View for Dialogue {
    type V = DialogueView;

    closed spec fn view(&self) -> DialogueView {
        DialogueView { nodes: self.nodes@, machine: self.machine@ }
    }
}

impl Dialogue {
    /// An engine without a program, stopped before the node named `Start`.
    pub fn new() -> (dialogue: Dialogue)
        ensures
            dialogue@ == semantics::initial(),
    {
        let dialogue = Dialogue {
            nodes: Table::new(),
            machine: Machine {
                execution_state: ExecutionState::Stopped,
                current_node: "Start".to_owned(),
                current_index: 0,
                stack: Vec::new(),
                variables: Table::new(),
                current_line: DialogueLine::default(),
                current_command: String::new(),
                current_options: Vec::new(),
            },
        };
        assert(values_view(dialogue.machine.stack@) =~= Seq::empty());
        assert(options_view(dialogue.machine.current_options@) =~= Seq::empty());
        dialogue
    }

    /// Starts the conversation or goes on with it: runs instructions until
    /// one of them pauses the run with an event, ends it, or fails. A call
    /// in the middle of a run or while an option is awaited is refused.
    pub fn advance(&mut self) -> (result: Result<Option<DialogueEvent>, DialogueError>)
        ensures
            final(self)@ == semantics::advance(old(self)@, STEP_LIMIT as nat).0,
            result == semantics::advance(old(self)@, STEP_LIMIT as nat).1,
    {
        self.advance_within(STEP_LIMIT)
    }

    /// Does what [`Dialogue::advance`] does, with at most `limit`
    /// instructions. A run that needs more fails as
    /// [`ProgramFault::NoYield`].
    pub fn advance_within(&mut self, limit: u64) -> (result: Result<
        Option<DialogueEvent>,
        DialogueError,
    >)
        ensures
            final(self)@ == semantics::advance(old(self)@, limit as nat).0,
            result == semantics::advance(old(self)@, limit as nat).1,
    {
        match self.machine.execution_state {
            ExecutionState::Running => {
                return Err(DialogueError::Misuse(ContractViolation::AlreadyRunning));
            },
            ExecutionState::WaitingOnOptionSelection => {
                return Err(DialogueError::Misuse(ContractViolation::WaitingForOption));
            },
            _ => {},
        }
        self.machine.execution_state = ExecutionState::Running;
        let ghost nodes = self.nodes@;
        let ghost outcome = semantics::run(nodes, self.machine@, limit as nat);
        let ghost expected = semantics::advance(old(self)@, limit as nat);
        let mut left: u64 = limit;
        while left > 0
            invariant
                self.nodes@ == nodes,
                semantics::run(nodes, self.machine@, left as nat) == outcome,
                expected == semantics::advance(old(self)@, limit as nat),
                expected.0 == (DialogueView { nodes, machine: outcome.machine }),
                expected.1 == outcome.result,
            decreases left,
        {
            match self.machine.step(&self.nodes) {
                Ok(Flow::Next) => {
                    left -= 1;
                },
                Ok(Flow::Done(event)) => {
                    return Ok(event);
                },
                Err(fault) => {
                    return Err(DialogueError::Malformed(fault));
                },
            }
        }
        Err(DialogueError::Malformed(ProgramFault::NoYield))
    }

    /// The line that was handed out last.
    pub fn current_line(&self) -> (line: &DialogueLine)
        ensures
            line@ == self@.machine.current_line,
    {
        &self.machine.current_line
    }

    /// The command that was handed out last.
    pub fn current_command(&self) -> (command: &str)
        ensures
            command@ == self@.machine.current_command,
    {
        self.machine.current_command.as_str()
    }

    /// The options gathered since the last selection.
    pub fn current_options(&self) -> (options: &[DialogueOption])
        ensures
            options_view(options@) == self@.machine.current_options,
    {
        self.machine.current_options.as_slice()
    }

    /// Takes a program in: its nodes join the node table and its initial
    /// values join the variables. Where a name is there already, what the
    /// program brings takes its place.
    pub fn add_program(&mut self, program: &Program)
        ensures
            final(self)@ == semantics::add_program(old(self)@, program@),
    {
        let ghost nodes = self.nodes@;
        let ghost variables = self.machine.variables@;
        let node_count = program.nodes.len();
        let mut i: usize = 0;
        proof {
            program.nodes.lemma_prefix(0);
            assert(nodes.union_prefer_right(program.nodes.spec_prefix(0)) =~= nodes);
        }
        while i < node_count
            invariant
                node_count == program.nodes.spec_len(),
                i <= node_count,
                self.nodes@ == nodes.union_prefer_right(program.nodes.spec_prefix(i as int)),
                self.machine == old(self).machine,
            decreases node_count - i,
        {
            let name = program.nodes.key_at(i).clone();
            let node = program.nodes.value_at(i).clone();
            proof {
                program.nodes.lemma_prefix(i as int);
                assert(nodes.union_prefer_right(program.nodes.spec_prefix(i as int)).insert(
                    name@,
                    node@,
                ) =~= nodes.union_prefer_right(program.nodes.spec_prefix(i + 1)));
            }
            self.nodes.insert(name, node);
            i += 1;
        }
        let value_count = program.initial_values.len();
        let mut k: usize = 0;
        proof {
            program.nodes.lemma_prefix(0);
            program.initial_values.lemma_prefix(0);
            assert(variables.union_prefer_right(program.initial_values.spec_prefix(0))
                =~= variables);
        }
        while k < value_count
            invariant
                value_count == program.initial_values.spec_len(),
                k <= value_count,
                self.nodes@ == nodes.union_prefer_right(program.nodes@),
                self.machine@ == (MachineView {
                    variables: variables.union_prefer_right(
                        program.initial_values.spec_prefix(k as int),
                    ),
                    ..old(self).machine@
                }),
            decreases value_count - k,
        {
            let name = program.initial_values.key_at(k).clone();
            let value = program.initial_values.value_at(k).clone();
            proof {
                program.initial_values.lemma_prefix(k as int);
                assert(variables.union_prefer_right(
                    program.initial_values.spec_prefix(k as int),
                ).insert(name@, value@) =~= variables.union_prefer_right(
                    program.initial_values.spec_prefix(k + 1),
                ));
            }
            self.machine.variables.insert(name, value);
            k += 1;
        }
        proof {
            program.initial_values.lemma_prefix(0);
        }
    }

    /// Selects one of the options that were shown: its destination goes on
    /// the stack, for the program to run it, and the list is emptied. The
    /// call is refused unless the engine waits for an option and `option`
    /// is in the list.
    pub fn set_selected_option(&mut self, option: usize) -> (result: Result<(), DialogueError>)
        ensures
            final(self)@ == semantics::select_option(old(self)@, option as int).0,
            result == semantics::select_option(old(self)@, option as int).1,
    {
        match self.machine.execution_state {
            ExecutionState::WaitingOnOptionSelection => {},
            _ => {
                return Err(DialogueError::Misuse(ContractViolation::NotWaitingForOption));
            },
        }
        if option >= self.machine.current_options.len() {
            return Err(DialogueError::Misuse(ContractViolation::OptionOutOfBounds));
        }
        let destination = self.machine.current_options[option].destination.clone();
        self.machine.stack.push(Value::StringValue(destination));
        self.machine.current_options.clear();
        self.machine.execution_state = ExecutionState::WaitingForContinue;
        proof {
            assert(values_view(self.machine.stack@) =~= values_view(old(self).machine.stack@).push(
                ValueView::StringValue(destination@),
            ));
            assert(options_view(self.machine.current_options@) =~= Seq::empty());
        }
        Ok(())
    }
}

impl Default for Dialogue {
    fn default() -> (dialogue: Dialogue)
        ensures
            dialogue@ == semantics::initial(),
    {
        Dialogue::new()
    }
}

} // verus!
