//! The machine that runs instructions: the instruction pointer, the operand
//! stack, the variables, and what was handed out last.

use crate::event::{
    options_view, texts_view, DialogueEvent, DialogueLine, DialogueOption, ExecutionState,
    ProgramFault,
};
use crate::program::{
    value_text, value_to_string, values_view, Instruction, Node, Number, NumberView, OpCode,
    Value,
};
use crate::semantics;
use crate::semantics::{MachineView, Step};
use crate::table::Table;
use vstd::prelude::*;

verus! {

/// The value of the operand at `index`.
pub fn get_operand(instruction: &Instruction, index: usize) -> (found: Result<
    &Value,
    ProgramFault,
>)
    ensures
        match found {
            Ok(value) => semantics::operand(instruction@, index as int) == Some(value@),
            Err(fault) => fault == ProgramFault::MissingOperand && semantics::operand(
                instruction@,
                index as int,
            ) is None,
        },
{
    if index < instruction.operands.len() {
        match &instruction.operands[index].value {
            Some(value) => Ok(value),
            None => Err(ProgramFault::MissingOperand),
        }
    } else {
        Err(ProgramFault::MissingOperand)
    }
}

/// The text that the operand at `index` holds.
pub fn get_string_operand(instruction: &Instruction, index: usize) -> (found: Result<
    &String,
    ProgramFault,
>)
    ensures
        match found {
            Ok(text) => semantics::string_operand(instruction@, index as int) == Ok::<
                Seq<char>,
                ProgramFault,
            >(text@),
            Err(fault) => semantics::string_operand(instruction@, index as int) == Err::<
                Seq<char>,
                ProgramFault,
            >(fault),
        },
{
    match get_operand(instruction, index) {
        Ok(Value::StringValue(text)) => Ok(text),
        Ok(_) => Err(ProgramFault::UnexpectedOperand),
        Err(fault) => Err(fault),
    }
}

/// The truth value that the operand at `index` holds.
pub fn get_bool_operand(instruction: &Instruction, index: usize) -> (found: Result<
    bool,
    ProgramFault,
>)
    ensures
        found == semantics::bool_operand(instruction@, index as int),
{
    match get_operand(instruction, index) {
        Ok(Value::BoolValue(flag)) => Ok(*flag),
        Ok(_) => Err(ProgramFault::UnexpectedOperand),
        Err(fault) => Err(fault),
    }
}

/// The number that the operand at `index` holds.
pub fn get_number_operand(instruction: &Instruction, index: usize) -> (found: Result<
    &Number,
    ProgramFault,
>)
    ensures
        match found {
            Ok(number) => semantics::number_operand(instruction@, index as int) == Ok::<
                NumberView,
                ProgramFault,
            >(number@),
            Err(fault) => semantics::number_operand(instruction@, index as int) == Err::<
                NumberView,
                ProgramFault,
            >(fault),
        },
{
    match get_operand(instruction, index) {
        Ok(Value::NumberValue(number)) => Ok(number),
        Ok(_) => Err(ProgramFault::UnexpectedOperand),
        Err(fault) => Err(fault),
    }
}

/// How a run goes on after an instruction.
pub(crate) enum Flow {
    /// With the next instruction.
    Next,
    /// Not at all: the run has ended, with this event or without one.
    Done(Option<DialogueEvent>),
}

/// The part of the engine that a run changes.
pub(crate) struct Machine {
    pub(crate) execution_state: ExecutionState,
    pub(crate) current_node: String,
    pub(crate) current_index: usize,
    pub(crate) stack: Vec<Value>,
    pub(crate) variables: Table<Value>,
    pub(crate) current_line: DialogueLine,
    pub(crate) current_command: String,
    pub(crate) current_options: Vec<DialogueOption>,
}

impl View for Machine {
    type V = MachineView;

    open(crate) spec fn view(&self) -> MachineView {
        MachineView {
            execution_state: self.execution_state,
            current_node: self.current_node@,
            current_index: self.current_index as int,
            stack: values_view(self.stack@),
            variables: self.variables@,
            current_line: self.current_line@,
            current_command: self.current_command@,
            current_options: options_view(self.current_options@),
        }
    }
}

/// The machine went from `before` to `after` and reported `flow`, as `step`
/// says it should.
pub(crate) open spec fn follows(
    before: MachineView,
    after: MachineView,
    flow: Result<Flow, ProgramFault>,
    step: Step,
) -> bool {
    match step {
        Step::Next(machine) => flow == Ok::<Flow, ProgramFault>(Flow::Next) && after == machine,
        Step::Done(machine, event) => flow == Ok::<Flow, ProgramFault>(Flow::Done(event)) && after
            == machine,
        Step::Fault(fault) => flow == Err::<Flow, ProgramFault>(fault) && after == before,
    }
}

/// The position that `node` gives to `label`.
fn label_target(node: &Node, label: &String) -> (target: Option<usize>)
    ensures
        match target {
            Some(position) => node@.labels.contains_key(label@) && node@.labels[label@]
                == position,
            None => !node@.labels.contains_key(label@),
        },
{
    match node.labels.get(label) {
        Some(position) => Some(*position),
        None => None,
    }
}

impl Machine {
    /// Puts `value` on top of the stack.
    fn push(&mut self, value: Value)
        ensures
            final(self)@ == (MachineView { stack: old(self)@.stack.push(value@), ..old(self)@ }),
    {
        self.stack.push(value);
        assert(values_view(self.stack@) =~= values_view(old(self).stack@).push(value@));
    }

    /// Takes the top value off the stack.
    fn pop(&mut self) -> (value: Value)
        requires
            old(self)@.stack.len() > 0,
        ensures
            final(self)@ == (MachineView { stack: old(self)@.stack.drop_last(), ..old(self)@ }),
            value@ == old(self)@.stack.last(),
    {
        let popped = self.stack.pop();
        assert(values_view(self.stack@) =~= values_view(old(self).stack@).drop_last());
        popped.unwrap()
    }

    /// Takes the top `count` values off the stack and returns their texts,
    /// in stack order.
    fn take_texts(&mut self, count: usize) -> (texts: Vec<String>)
        requires
            count <= old(self)@.stack.len(),
        ensures
            final(self)@ == (MachineView {
                stack: old(self)@.stack.take(old(self)@.stack.len() - count),
                ..old(self)@
            }),
            texts_view(texts@) == semantics::top_texts(old(self)@.stack, count as nat),
    {
        let at: usize = self.stack.len() - count;
        let top = self.stack.split_off(at);
        assert(values_view(self.stack@) =~= values_view(old(self).stack@).take(at as int));
        let ghost taken = top@;
        let mut texts: Vec<String> = Vec::new();
        for value in iter: top
            invariant
                iter.seq() == taken,
                texts@.len() == iter.index(),
                forall|j: int|
                    0 <= j < iter.index() ==> (#[trigger] texts@[j])@ == value_text(
                        taken[j]@,
                    ),
        {
            texts.push(value_to_string(value));
        }
        assert(texts_view(texts@) =~= semantics::top_texts(old(self)@.stack, count as nat));
        texts
    }

    /// Runs `JumpTo`.
    fn jump_to(&mut self, node: &Node, instruction: &Instruction) -> (flow: Result<
        Flow,
        ProgramFault,
    >)
        ensures
            follows(
                old(self)@,
                final(self)@,
                flow,
                semantics::jump_to(node@, instruction@, old(self)@),
            ),
    {
        let label = match get_string_operand(instruction, 0) {
            Ok(label) => label,
            Err(fault) => {
                return Err(fault);
            },
        };
        match label_target(node, label) {
            Some(position) => {
                self.current_index = position;
                Ok(Flow::Next)
            },
            None => Err(ProgramFault::UnknownLabel),
        }
    }

    /// The text on top of the stack.
    fn top_string(&self) -> (found: Result<&String, ProgramFault>)
        ensures
            match found {
                Ok(text) => semantics::top_string(self@.stack) == Ok::<Seq<char>, ProgramFault>(
                    text@,
                ),
                Err(fault) => semantics::top_string(self@.stack) == Err::<
                    Seq<char>,
                    ProgramFault,
                >(fault),
            },
    {
        let len = self.stack.len();
        if len == 0 {
            return Err(ProgramFault::StackUnderflow);
        }
        match &self.stack[len - 1] {
            Value::StringValue(text) => Ok(text),
            _ => Err(ProgramFault::UnexpectedValue),
        }
    }

    /// The truth value on top of the stack.
    fn top_bool(&self) -> (found: Result<bool, ProgramFault>)
        ensures
            found == semantics::top_bool(self@.stack),
    {
        let len = self.stack.len();
        if len == 0 {
            return Err(ProgramFault::StackUnderflow);
        }
        match &self.stack[len - 1] {
            Value::BoolValue(flag) => Ok(*flag),
            _ => Err(ProgramFault::UnexpectedValue),
        }
    }

    /// Runs `Jump`.
    fn jump_to_top(&mut self, node: &Node) -> (flow: Result<Flow, ProgramFault>)
        ensures
            follows(old(self)@, final(self)@, flow, semantics::jump_to_top(node@, old(self)@)),
    {
        let target = match self.top_string() {
            Ok(label) => label_target(node, label),
            Err(fault) => {
                return Err(fault);
            },
        };
        match target {
            Some(position) => {
                self.current_index = position;
                Ok(Flow::Next)
            },
            None => Err(ProgramFault::UnknownLabel),
        }
    }

    /// How much the number operand at `index` counts, where the stack holds
    /// that many values.
    fn count_within_stack(&self, instruction: &Instruction, index: usize) -> (found: Result<
        usize,
        ProgramFault,
    >)
        ensures
            match found {
                Ok(count) => semantics::count_operand(instruction@, index as int) == Ok::<
                    nat,
                    ProgramFault,
                >(count as nat) && count <= self@.stack.len(),
                Err(fault) => match semantics::count_operand(instruction@, index as int) {
                    Ok(count) => count > self@.stack.len() && fault
                        == ProgramFault::StackUnderflow,
                    Err(other) => fault == other,
                },
            },
    {
        let len = self.stack.len();
        match get_number_operand(instruction, index) {
            Ok(number) => match number.count() {
                Some(count) => if count <= len {
                    Ok(count)
                } else {
                    Err(ProgramFault::StackUnderflow)
                },
                None => Err(ProgramFault::StackUnderflow),
            },
            Err(fault) => Err(fault),
        }
    }

    /// Runs `RunLine`.
    fn run_line(&mut self, instruction: &Instruction) -> (flow: Result<Flow, ProgramFault>)
        ensures
            follows(old(self)@, final(self)@, flow, semantics::run_line(instruction@, old(self)@)),
    {
        let id = match get_string_operand(instruction, 0) {
            Ok(id) => id.clone(),
            Err(fault) => {
                return Err(fault);
            },
        };
        let count = match self.count_within_stack(instruction, 1) {
            Ok(count) => count,
            Err(fault) => {
                return Err(fault);
            },
        };
        let substitutions = self.take_texts(count);
        self.current_line = DialogueLine { id, substitutions };
        self.execution_state = ExecutionState::WaitingForContinue;
        Ok(Flow::Done(Some(DialogueEvent::Line)))
    }

    /// Runs `RunCommand`.
    fn run_command(&mut self, instruction: &Instruction) -> (flow: Result<Flow, ProgramFault>)
        ensures
            follows(
                old(self)@,
                final(self)@,
                flow,
                semantics::run_command(instruction@, old(self)@),
            ),
    {
        match get_string_operand(instruction, 0) {
            Ok(command) => {
                self.current_command = command.clone();
                self.execution_state = ExecutionState::WaitingForContinue;
                Ok(Flow::Done(Some(DialogueEvent::Command)))
            },
            Err(fault) => Err(fault),
        }
    }

    /// Runs `AddOption`.
    fn add_option(&mut self, instruction: &Instruction) -> (flow: Result<Flow, ProgramFault>)
        ensures
            follows(
                old(self)@,
                final(self)@,
                flow,
                semantics::add_option(instruction@, old(self)@),
            ),
    {
        let id = match get_string_operand(instruction, 0) {
            Ok(id) => id.clone(),
            Err(fault) => {
                return Err(fault);
            },
        };
        let destination = match get_string_operand(instruction, 1) {
            Ok(destination) => destination.clone(),
            Err(fault) => {
                return Err(fault);
            },
        };
        let number = match get_number_operand(instruction, 2) {
            Ok(number) => number,
            Err(fault) => {
                return Err(fault);
            },
        };
        let has_condition = match get_bool_operand(instruction, 3) {
            Ok(flag) => flag,
            Err(fault) => {
                return Err(fault);
            },
        };
        let len = self.stack.len();
        let count = match number.count() {
            Some(count) => count,
            None => {
                return Err(ProgramFault::StackUnderflow);
            },
        };
        if count > len {
            return Err(ProgramFault::StackUnderflow);
        }
        let available = if has_condition {
            if count == len {
                return Err(ProgramFault::StackUnderflow);
            }
            match &self.stack[len - count - 1] {
                Value::BoolValue(flag) => *flag,
                _ => {
                    return Err(ProgramFault::UnexpectedValue);
                },
            }
        } else {
            true
        };
        let substitutions = self.take_texts(count);
        if has_condition {
            let _ = self.pop();
        }
        let option = DialogueOption {
            index: self.current_options.len(),
            line: DialogueLine { id, substitutions },
            destination,
            available,
        };
        let ghost added = option@;
        self.current_options.push(option);
        assert(options_view(self.current_options@) =~= options_view(
            old(self).current_options@,
        ).push(added));
        Ok(Flow::Next)
    }

    /// Runs `JumpIfFalse`.
    fn jump_if_false(&mut self, node: &Node, instruction: &Instruction) -> (flow: Result<
        Flow,
        ProgramFault,
    >)
        ensures
            follows(
                old(self)@,
                final(self)@,
                flow,
                semantics::jump_if_false(node@, instruction@, old(self)@),
            ),
    {
        match self.top_bool() {
            Ok(flag) => if flag {
                Ok(Flow::Next)
            } else {
                self.jump_to(node, instruction)
            },
            Err(fault) => Err(fault),
        }
    }

    /// Runs `PushVariable`.
    fn push_variable(&mut self, instruction: &Instruction) -> (flow: Result<Flow, ProgramFault>)
        ensures
            follows(
                old(self)@,
                final(self)@,
                flow,
                semantics::push_variable(instruction@, old(self)@),
            ),
    {
        let name = match get_string_operand(instruction, 0) {
            Ok(name) => name,
            Err(fault) => {
                return Err(fault);
            },
        };
        let value = match self.variables.get(name) {
            Some(value) => value.clone(),
            None => {
                return Err(ProgramFault::UnknownVariable);
            },
        };
        self.push(value);
        Ok(Flow::Next)
    }

    /// Runs `StoreVariable`.
    fn store_variable(&mut self, instruction: &Instruction) -> (flow: Result<Flow, ProgramFault>)
        ensures
            follows(
                old(self)@,
                final(self)@,
                flow,
                semantics::store_variable(instruction@, old(self)@),
            ),
    {
        if self.stack.len() == 0 {
            return Err(ProgramFault::StackUnderflow);
        }
        let name = match get_string_operand(instruction, 0) {
            Ok(name) => name.clone(),
            Err(fault) => {
                return Err(fault);
            },
        };
        let value = self.pop();
        self.variables.insert(name, value);
        Ok(Flow::Next)
    }

    /// Runs `RunNode`.
    fn run_node(&mut self) -> (flow: Result<Flow, ProgramFault>)
        ensures
            follows(old(self)@, final(self)@, flow, semantics::run_node(old(self)@)),
    {
        let name = match self.top_string() {
            Ok(name) => name.clone(),
            Err(fault) => {
                return Err(fault);
            },
        };
        let _ = self.pop();
        self.current_node = name;
        self.current_index = 0;
        Ok(Flow::Next)
    }

    /// Runs `instruction` of `node`, the instruction pointer having moved
    /// past it.
    fn execute(&mut self, node: &Node, instruction: &Instruction) -> (flow: Result<
        Flow,
        ProgramFault,
    >)
        ensures
            follows(
                old(self)@,
                final(self)@,
                flow,
                semantics::execute(node@, instruction@, old(self)@),
            ),
    {
        match instruction.opcode {
            OpCode::JumpTo => self.jump_to(node, instruction),
            OpCode::Jump => self.jump_to_top(node),
            OpCode::RunLine => self.run_line(instruction),
            OpCode::RunCommand => self.run_command(instruction),
            OpCode::AddOption => self.add_option(instruction),
            OpCode::ShowOptions => {
                self.execution_state = ExecutionState::WaitingOnOptionSelection;
                Ok(Flow::Done(Some(DialogueEvent::Options)))
            },
            OpCode::PushString => match get_string_operand(instruction, 0) {
                Ok(text) => {
                    self.push(Value::StringValue(text.clone()));
                    Ok(Flow::Next)
                },
                Err(fault) => Err(fault),
            },
            OpCode::PushFloat => match get_number_operand(instruction, 0) {
                Ok(number) => {
                    self.push(Value::NumberValue(number.clone()));
                    Ok(Flow::Next)
                },
                Err(fault) => Err(fault),
            },
            OpCode::PushBool => match get_bool_operand(instruction, 0) {
                Ok(flag) => {
                    self.push(Value::BoolValue(flag));
                    Ok(Flow::Next)
                },
                Err(fault) => Err(fault),
            },
            OpCode::PushNull => Err(ProgramFault::UnsupportedOperation),
            OpCode::JumpIfFalse => self.jump_if_false(node, instruction),
            OpCode::Pop => if self.stack.len() == 0 {
                Err(ProgramFault::StackUnderflow)
            } else {
                let _ = self.pop();
                Ok(Flow::Next)
            },
            OpCode::CallFunc => Err(ProgramFault::UnsupportedOperation),
            OpCode::PushVariable => self.push_variable(instruction),
            OpCode::StoreVariable => self.store_variable(instruction),
            OpCode::Stop => {
                self.execution_state = ExecutionState::Stopped;
                Ok(Flow::Done(None))
            },
            OpCode::RunNode => self.run_node(),
        }
    }

    /// Runs one step: fetches the next instruction of the current node in
    /// `nodes`, moves the instruction pointer past it, and runs it.
    pub(crate) fn step(&mut self, nodes: &Table<Node>) -> (flow: Result<Flow, ProgramFault>)
        ensures
            follows(old(self)@, final(self)@, flow, semantics::step(nodes@, old(self)@)),
    {
        let node = match nodes.get(&self.current_node) {
            Some(node) => node,
            None => {
                return Err(ProgramFault::UnknownNode);
            },
        };
        let index = self.current_index;
        if index >= node.instructions.len() {
            return Err(ProgramFault::NoInstruction);
        }
        self.current_index = index + 1;
        let flow = self.execute(node, &node.instructions[index]);
        if flow.is_err() {
            self.current_index = index;
        }
        flow
    }
}

} // verus!
