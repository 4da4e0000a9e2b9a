//! What the engine does, stated over the views of its data: the effect of
//! each operation, of one step, of a run, and of the calls a host can make.

use crate::event::{
    ContractViolation, DialogueError, DialogueEvent, ExecutionState, LineView, OptionView,
    ProgramFault,
};
use crate::program::{
    number_count, value_text, InstructionView, NodeView, NumberView, OpCode, ProgramView,
    ValueView,
};
use vstd::prelude::*;

verus! {

/// The part of the engine that a run changes.
pub ghost struct MachineView {
    pub execution_state: ExecutionState,
    /// The name of the node that is running.
    pub current_node: Seq<char>,
    /// The position, in that node, of the instruction that runs next.
    pub current_index: int,
    /// The operand stack. Its top is its last value.
    pub stack: Seq<ValueView>,
    pub variables: Map<Seq<char>, ValueView>,
    /// The line that was handed out last.
    pub current_line: LineView,
    /// The command that was handed out last.
    pub current_command: Seq<char>,
    /// The options gathered since the last selection.
    pub current_options: Seq<OptionView>,
}

/// The engine: its node table and its machine.
pub ghost struct DialogueView {
    pub nodes: Map<Seq<char>, NodeView>,
    pub machine: MachineView,
}

/// What one instruction does to the machine.
pub ghost enum Step {
    /// The run goes on with this machine.
    Next(MachineView),
    /// The run ends with this machine, at a pause with its event or, without
    /// an event, at the end of the program.
    Done(MachineView, Option<DialogueEvent>),
    /// The instruction cannot be run. The machine stays as it was.
    Fault(ProgramFault),
}

/// The value of the operand at `index`, if the instruction has one there.
pub open spec fn operand(instruction: InstructionView, index: int) -> Option<ValueView> {
    if 0 <= index < instruction.operands.len() {
        instruction.operands[index]
    } else {
        None
    }
}

/// The text that the operand at `index` holds.
pub open spec fn string_operand(instruction: InstructionView, index: int) -> Result<
    Seq<char>,
    ProgramFault,
> {
    match operand(instruction, index) {
        None => Err(ProgramFault::MissingOperand),
        Some(ValueView::StringValue(text)) => Ok(text),
        Some(_) => Err(ProgramFault::UnexpectedOperand),
    }
}

/// The truth value that the operand at `index` holds.
pub open spec fn bool_operand(instruction: InstructionView, index: int) -> Result<
    bool,
    ProgramFault,
> {
    match operand(instruction, index) {
        None => Err(ProgramFault::MissingOperand),
        Some(ValueView::BoolValue(flag)) => Ok(flag),
        Some(_) => Err(ProgramFault::UnexpectedOperand),
    }
}

/// The number that the operand at `index` holds.
pub open spec fn number_operand(instruction: InstructionView, index: int) -> Result<
    NumberView,
    ProgramFault,
> {
    match operand(instruction, index) {
        None => Err(ProgramFault::MissingOperand),
        Some(ValueView::NumberValue(number)) => Ok(number),
        Some(_) => Err(ProgramFault::UnexpectedOperand),
    }
}

/// How much the number that the operand at `index` holds counts.
pub open spec fn count_operand(instruction: InstructionView, index: int) -> Result<
    nat,
    ProgramFault,
> {
    match number_operand(instruction, index) {
        Err(fault) => Err(fault),
        Ok(number) => Ok(number_count(number.bits)),
    }
}

/// The text on top of the stack.
pub open spec fn top_string(stack: Seq<ValueView>) -> Result<Seq<char>, ProgramFault> {
    if stack.len() == 0 {
        Err(ProgramFault::StackUnderflow)
    } else {
        match stack.last() {
            ValueView::StringValue(text) => Ok(text),
            _ => Err(ProgramFault::UnexpectedValue),
        }
    }
}

/// The truth value on top of the stack.
pub open spec fn top_bool(stack: Seq<ValueView>) -> Result<bool, ProgramFault> {
    if stack.len() == 0 {
        Err(ProgramFault::StackUnderflow)
    } else {
        match stack.last() {
            ValueView::BoolValue(flag) => Ok(flag),
            _ => Err(ProgramFault::UnexpectedValue),
        }
    }
}

/// The texts of the top `count` values of the stack, in stack order.
pub open spec fn top_texts(stack: Seq<ValueView>, count: nat) -> Seq<Seq<char>>
    recommends
        count <= stack.len(),
{
    Seq::new(count, |i: int| value_text(stack[stack.len() - count + i]))
}

/// Sets the instruction pointer to the position that the node gives to a
/// label. Labels belong to the node that is running.
pub open spec fn jump(node: NodeView, machine: MachineView, label: Seq<char>) -> Step {
    if node.labels.contains_key(label) {
        Step::Next(MachineView { current_index: node.labels[label] as int, ..machine })
    } else {
        Step::Fault(ProgramFault::UnknownLabel)
    }
}

/// `JumpTo`: jumps to the label that the first operand names.
pub open spec fn jump_to(node: NodeView, instruction: InstructionView, machine: MachineView) -> Step {
    match string_operand(instruction, 0) {
        Err(fault) => Step::Fault(fault),
        Ok(label) => jump(node, machine, label),
    }
}

/// `Jump`: jumps to the label that the top of the stack names. The stack
/// stays as it is.
pub open spec fn jump_to_top(node: NodeView, machine: MachineView) -> Step {
    match top_string(machine.stack) {
        Err(fault) => Step::Fault(fault),
        Ok(label) => jump(node, machine, label),
    }
}

/// `RunLine`: takes as many values off the stack as the second operand
/// counts, makes their texts the substitutions of the line that the first
/// operand names, and pauses with that line.
pub open spec fn run_line(instruction: InstructionView, machine: MachineView) -> Step {
    match string_operand(instruction, 0) {
        Err(fault) => Step::Fault(fault),
        Ok(id) => match count_operand(instruction, 1) {
            Err(fault) => Step::Fault(fault),
            Ok(count) => if count > machine.stack.len() {
                Step::Fault(ProgramFault::StackUnderflow)
            } else {
                Step::Done(
                    MachineView {
                        execution_state: ExecutionState::WaitingForContinue,
                        stack: machine.stack.take(machine.stack.len() - count),
                        current_line: LineView {
                            id,
                            substitutions: top_texts(machine.stack, count),
                        },
                        ..machine
                    },
                    Some(DialogueEvent::Line),
                )
            },
        },
    }
}

/// `RunCommand`: pauses with the command that the first operand holds.
pub open spec fn run_command(instruction: InstructionView, machine: MachineView) -> Step {
    match string_operand(instruction, 0) {
        Err(fault) => Step::Fault(fault),
        Ok(command) => Step::Done(
            MachineView {
                execution_state: ExecutionState::WaitingForContinue,
                current_command: command,
                ..machine
            },
            Some(DialogueEvent::Command),
        ),
    }
}

/// The stack and the availability that `AddOption` leaves, once the
/// substitutions are off the stack: with a condition, the truth value on top
/// is taken off and decides; without one, the option is available.
pub open spec fn option_availability(rest: Seq<ValueView>, has_condition: bool) -> Result<
    (Seq<ValueView>, bool),
    ProgramFault,
> {
    if has_condition {
        match top_bool(rest) {
            Err(fault) => Err(fault),
            Ok(flag) => Ok((rest.drop_last(), flag)),
        }
    } else {
        Ok((rest, true))
    }
}

/// `AddOption`: takes the substitutions off the stack as `RunLine` does,
/// then the condition if the fourth operand asks for one, and appends an
/// option to the list. The new option is numbered by its place in the list.
pub open spec fn add_option(instruction: InstructionView, machine: MachineView) -> Step {
    match string_operand(instruction, 0) {
        Err(fault) => Step::Fault(fault),
        Ok(id) => match string_operand(instruction, 1) {
            Err(fault) => Step::Fault(fault),
            Ok(destination) => match count_operand(instruction, 2) {
                Err(fault) => Step::Fault(fault),
                Ok(count) => match bool_operand(instruction, 3) {
                    Err(fault) => Step::Fault(fault),
                    Ok(has_condition) => if count > machine.stack.len() {
                        Step::Fault(ProgramFault::StackUnderflow)
                    } else {
                        match option_availability(
                            machine.stack.take(machine.stack.len() - count),
                            has_condition,
                        ) {
                            Err(fault) => Step::Fault(fault),
                            Ok((stack, available)) => Step::Next(
                                MachineView {
                                    stack,
                                    current_options: machine.current_options.push(
                                        OptionView {
                                            index: machine.current_options.len() as int,
                                            line: LineView {
                                                id,
                                                substitutions: top_texts(machine.stack, count),
                                            },
                                            destination,
                                            available,
                                        },
                                    ),
                                    ..machine
                                },
                            ),
                        }
                    },
                },
            },
        },
    }
}

/// `ShowOptions`: pauses with the options gathered so far.
pub open spec fn show_options(machine: MachineView) -> Step {
    Step::Done(
        MachineView { execution_state: ExecutionState::WaitingOnOptionSelection, ..machine },
        Some(DialogueEvent::Options),
    )
}

/// Puts a value on top of the stack.
pub open spec fn push(machine: MachineView, value: ValueView) -> Step {
    Step::Next(MachineView { stack: machine.stack.push(value), ..machine })
}

/// `PushString`: puts the text of the first operand on the stack.
pub open spec fn push_string(instruction: InstructionView, machine: MachineView) -> Step {
    match string_operand(instruction, 0) {
        Err(fault) => Step::Fault(fault),
        Ok(text) => push(machine, ValueView::StringValue(text)),
    }
}

/// `PushFloat`: puts the number of the first operand on the stack.
pub open spec fn push_float(instruction: InstructionView, machine: MachineView) -> Step {
    match number_operand(instruction, 0) {
        Err(fault) => Step::Fault(fault),
        Ok(number) => push(machine, ValueView::NumberValue(number)),
    }
}

/// `PushBool`: puts the truth value of the first operand on the stack.
pub open spec fn push_bool(instruction: InstructionView, machine: MachineView) -> Step {
    match bool_operand(instruction, 0) {
        Err(fault) => Step::Fault(fault),
        Ok(flag) => push(machine, ValueView::BoolValue(flag)),
    }
}

/// `JumpIfFalse`: where the top of the stack is false, jumps to the label
/// that the first operand names. The stack stays as it is either way.
pub open spec fn jump_if_false(
    node: NodeView,
    instruction: InstructionView,
    machine: MachineView,
) -> Step {
    match top_bool(machine.stack) {
        Err(fault) => Step::Fault(fault),
        Ok(flag) => if flag {
            Step::Next(machine)
        } else {
            jump_to(node, instruction, machine)
        },
    }
}

/// `Pop`: takes the top value off the stack.
pub open spec fn pop(machine: MachineView) -> Step {
    if machine.stack.len() == 0 {
        Step::Fault(ProgramFault::StackUnderflow)
    } else {
        Step::Next(MachineView { stack: machine.stack.drop_last(), ..machine })
    }
}

/// `PushVariable`: puts the value of the variable that the first operand
/// names on the stack.
pub open spec fn push_variable(instruction: InstructionView, machine: MachineView) -> Step {
    match string_operand(instruction, 0) {
        Err(fault) => Step::Fault(fault),
        Ok(name) => if machine.variables.contains_key(name) {
            push(machine, machine.variables[name])
        } else {
            Step::Fault(ProgramFault::UnknownVariable)
        },
    }
}

/// `StoreVariable`: takes the top value off the stack and stores it under
/// the name that the first operand holds.
pub open spec fn store_variable(instruction: InstructionView, machine: MachineView) -> Step {
    if machine.stack.len() == 0 {
        Step::Fault(ProgramFault::StackUnderflow)
    } else {
        match string_operand(instruction, 0) {
            Err(fault) => Step::Fault(fault),
            Ok(name) => Step::Next(
                MachineView {
                    stack: machine.stack.drop_last(),
                    variables: machine.variables.insert(name, machine.stack.last()),
                    ..machine
                },
            ),
        }
    }
}

/// `Stop`: ends the run without an event.
pub open spec fn stop(machine: MachineView) -> Step {
    Step::Done(MachineView { execution_state: ExecutionState::Stopped, ..machine }, None)
}

/// `RunNode`: takes the text on top of the stack as the name of a node and
/// goes on at the first instruction of that node.
pub open spec fn run_node(machine: MachineView) -> Step {
    match top_string(machine.stack) {
        Err(fault) => Step::Fault(fault),
        Ok(name) => Step::Next(
            MachineView {
                current_node: name,
                current_index: 0,
                stack: machine.stack.drop_last(),
                ..machine
            },
        ),
    }
}

/// What `instruction` of `node` does to a machine whose instruction pointer
/// has already moved past it.
pub open spec fn execute(node: NodeView, instruction: InstructionView, machine: MachineView) -> Step {
    match instruction.opcode {
        OpCode::JumpTo => jump_to(node, instruction, machine),
        OpCode::Jump => jump_to_top(node, machine),
        OpCode::RunLine => run_line(instruction, machine),
        OpCode::RunCommand => run_command(instruction, machine),
        OpCode::AddOption => add_option(instruction, machine),
        OpCode::ShowOptions => show_options(machine),
        OpCode::PushString => push_string(instruction, machine),
        OpCode::PushFloat => push_float(instruction, machine),
        OpCode::PushBool => push_bool(instruction, machine),
        OpCode::PushNull => Step::Fault(ProgramFault::UnsupportedOperation),
        OpCode::JumpIfFalse => jump_if_false(node, instruction, machine),
        OpCode::Pop => pop(machine),
        OpCode::CallFunc => Step::Fault(ProgramFault::UnsupportedOperation),
        OpCode::PushVariable => push_variable(instruction, machine),
        OpCode::StoreVariable => store_variable(instruction, machine),
        OpCode::Stop => stop(machine),
        OpCode::RunNode => run_node(machine),
    }
}

/// The instruction that runs next.
pub open spec fn fetch(nodes: Map<Seq<char>, NodeView>, machine: MachineView) -> Result<
    InstructionView,
    ProgramFault,
> {
    if !nodes.contains_key(machine.current_node) {
        Err(ProgramFault::UnknownNode)
    } else if 0 <= machine.current_index < nodes[machine.current_node].instructions.len() {
        Ok(nodes[machine.current_node].instructions[machine.current_index])
    } else {
        Err(ProgramFault::NoInstruction)
    }
}

/// One step: the next instruction is fetched, the instruction pointer moves
/// past it, and the instruction is run.
pub open spec fn step(nodes: Map<Seq<char>, NodeView>, machine: MachineView) -> Step {
    match fetch(nodes, machine) {
        Err(fault) => Step::Fault(fault),
        Ok(instruction) => execute(
            nodes[machine.current_node],
            instruction,
            MachineView { current_index: machine.current_index + 1, ..machine },
        ),
    }
}

/// How a run ends: the machine it leaves, and what the host is told.
pub ghost struct Outcome {
    pub machine: MachineView,
    pub result: Result<Option<DialogueEvent>, DialogueError>,
}

/// A run of at most `limit` steps: it goes on step by step until a step
/// ends it or fails. A failed step leaves the machine as it was before that
/// step. A run that is still going on after `limit` steps ends as
/// `NoYield`.
pub open spec fn run(nodes: Map<Seq<char>, NodeView>, machine: MachineView, limit: nat) -> Outcome
    decreases limit,
{
    if limit == 0 {
        Outcome { machine, result: Err(DialogueError::Malformed(ProgramFault::NoYield)) }
    } else {
        match step(nodes, machine) {
            Step::Next(next) => run(nodes, next, (limit - 1) as nat),
            Step::Done(last, event) => Outcome { machine: last, result: Ok(event) },
            Step::Fault(fault) => Outcome { machine, result: Err(DialogueError::Malformed(fault)) },
        }
    }
}

/// The engine as it is made: no nodes, no variables, an empty stack,
/// nothing handed out yet, stopped before the first instruction of the node
/// named `Start`.
pub open spec fn initial() -> DialogueView {
    DialogueView {
        nodes: Map::empty(),
        machine: MachineView {
            execution_state: ExecutionState::Stopped,
            current_node: "Start"@,
            current_index: 0,
            stack: Seq::empty(),
            variables: Map::empty(),
            current_line: LineView { id: Seq::empty(), substitutions: Seq::empty() },
            current_command: Seq::empty(),
            current_options: Seq::empty(),
        },
    }
}

/// What `advance` does: from `Stopped` and from `WaitingForContinue` the
/// machine is set to `Running` and runs; in the other two states the call is
/// refused and nothing changes.
pub open spec fn advance(dialogue: DialogueView, limit: nat) -> (DialogueView, Result<
    Option<DialogueEvent>,
    DialogueError,
>) {
    match dialogue.machine.execution_state {
        ExecutionState::Running => (
            dialogue,
            Err(DialogueError::Misuse(ContractViolation::AlreadyRunning)),
        ),
        ExecutionState::WaitingOnOptionSelection => (
            dialogue,
            Err(DialogueError::Misuse(ContractViolation::WaitingForOption)),
        ),
        _ => {
            let outcome = run(
                dialogue.nodes,
                MachineView { execution_state: ExecutionState::Running, ..dialogue.machine },
                limit,
            );
            (DialogueView { machine: outcome.machine, ..dialogue }, outcome.result)
        },
    }
}

/// What `set_selected_option` does: while the engine waits for an option,
/// and `index` is in the list, the destination of that option goes on the
/// stack, the list is emptied, and the engine waits to go on. Otherwise the
/// call is refused and nothing changes.
pub open spec fn select_option(dialogue: DialogueView, index: int) -> (DialogueView, Result<
    (),
    DialogueError,
>) {
    let machine = dialogue.machine;
    if machine.execution_state != ExecutionState::WaitingOnOptionSelection {
        (dialogue, Err(DialogueError::Misuse(ContractViolation::NotWaitingForOption)))
    } else if !(0 <= index < machine.current_options.len()) {
        (dialogue, Err(DialogueError::Misuse(ContractViolation::OptionOutOfBounds)))
    } else {
        (
            DialogueView {
                machine: MachineView {
                    execution_state: ExecutionState::WaitingForContinue,
                    stack: machine.stack.push(
                        ValueView::StringValue(machine.current_options[index].destination),
                    ),
                    current_options: Seq::empty(),
                    ..machine
                },
                ..dialogue
            },
            Ok(()),
        )
    }
}

/// What `add_program` does: the nodes of the program join the node table
/// and its initial values join the variables. Where a name is there already,
/// what the program brings takes its place.
pub open spec fn add_program(dialogue: DialogueView, program: ProgramView) -> DialogueView {
    DialogueView {
        nodes: dialogue.nodes.union_prefer_right(program.nodes),
        machine: MachineView {
            variables: dialogue.machine.variables.union_prefer_right(program.initial_values),
            ..dialogue.machine
        },
    }
}

} // verus!
