//! What holds of the engine whatever the program: laws proved from the
//! semantics.

use crate::event::{
    ContractViolation, DialogueError, DialogueEvent, ExecutionState, OptionView, ProgramFault,
};
use crate::program::{
    number_count, value_text, InstructionView, NodeView, NumberView, OpCode, ProgramView,
    ValueView,
};
use crate::semantics::{
    add_program, advance, execute, fetch, initial, number_operand, run, select_option, step,
    string_operand, DialogueView, MachineView, Step,
};
use vstd::arithmetic::power2::{lemma2_to64, lemma_pow2_adds, lemma_pow2_pos, pow2};
use vstd::prelude::*;

verus! {

/// The next instruction stores to the variable `name`.
pub open spec fn stores_to(
    nodes: Map<Seq<char>, NodeView>,
    machine: MachineView,
    name: Seq<char>,
) -> bool {
    match fetch(nodes, machine) {
        Ok(instruction) => instruction.opcode == OpCode::StoreVariable && string_operand(
            instruction,
            0,
        ) == Ok::<Seq<char>, ProgramFault>(name),
        Err(_) => false,
    }
}

/// The next instruction reads the variable `name`.
pub open spec fn reads_from(
    nodes: Map<Seq<char>, NodeView>,
    machine: MachineView,
    name: Seq<char>,
) -> bool {
    match fetch(nodes, machine) {
        Ok(instruction) => instruction.opcode == OpCode::PushVariable && string_operand(
            instruction,
            0,
        ) == Ok::<Seq<char>, ProgramFault>(name),
        Err(_) => false,
    }
}

/// `steps` steps lead from `machine` to `end`, each going on to the next,
/// and none of them stores to the variable `name`.
pub open spec fn reaches_without_store(
    nodes: Map<Seq<char>, NodeView>,
    machine: MachineView,
    name: Seq<char>,
    steps: nat,
    end: MachineView,
) -> bool
    decreases steps,
{
    if steps == 0 {
        end == machine
    } else {
        !stores_to(nodes, machine, name) && match step(nodes, machine) {
            Step::Next(next) => reaches_without_store(nodes, next, name, (steps - 1) as nat, end),
            _ => false,
        }
    }
}

/// A step that does not store to a variable leaves that variable as it
/// was.
pub proof fn lemma_step_keeps_variable(
    nodes: Map<Seq<char>, NodeView>,
    machine: MachineView,
    name: Seq<char>,
)
    requires
        !stores_to(nodes, machine, name),
    ensures
        match step(nodes, machine) {
            Step::Next(after) | Step::Done(after, _) => after.variables.contains_key(name)
                == machine.variables.contains_key(name) && after.variables[name]
                == machine.variables[name],
            Step::Fault(_) => true,
        },
{
}

/// Steps that do not store to a variable leave that variable as it was.
pub proof fn lemma_steps_keep_variable(
    nodes: Map<Seq<char>, NodeView>,
    machine: MachineView,
    name: Seq<char>,
    steps: nat,
    end: MachineView,
)
    requires
        reaches_without_store(nodes, machine, name, steps, end),
    ensures
        end.variables.contains_key(name) == machine.variables.contains_key(name),
        end.variables[name] == machine.variables[name],
    decreases steps,
{
    if steps > 0 {
        lemma_step_keeps_variable(nodes, machine, name);
        match step(nodes, machine) {
            Step::Next(next) => {
                lemma_steps_keep_variable(nodes, next, name, (steps - 1) as nat, end);
            },
            _ => {},
        }
    }
}

/// The last write wins: once a value is stored under a name, reading that
/// name gives this value, however many steps lie between, as long as none
/// of them stores under the same name.
pub proof fn lemma_last_write_wins(
    nodes: Map<Seq<char>, NodeView>,
    machine: MachineView,
    name: Seq<char>,
    steps: nat,
    later: MachineView,
)
    requires
        stores_to(nodes, machine, name),
        step(nodes, machine) matches Step::Next(stored) && reaches_without_store(
            nodes,
            stored,
            name,
            steps,
            later,
        ),
        reads_from(nodes, later, name),
    ensures
        step(nodes, later) matches Step::Next(read) && read.stack == later.stack.push(
            machine.stack.last(),
        ),
{
    let stored = step(nodes, machine)->Next_0;
    assert(stored.variables.contains_key(name));
    assert(stored.variables[name] == machine.stack.last());
    lemma_steps_keep_variable(nodes, stored, name, steps, later);
}

/// `RunLine` takes exactly the top values that its second operand counts:
/// their texts become the substitutions, in stack order, and the stack
/// keeps what lay below them.
pub proof fn lemma_run_line_takes_top_values(
    node: NodeView,
    instruction: InstructionView,
    machine: MachineView,
    id: Seq<char>,
    number: NumberView,
)
    requires
        instruction.opcode == OpCode::RunLine,
        string_operand(instruction, 0) == Ok::<Seq<char>, ProgramFault>(id),
        number_operand(instruction, 1) == Ok::<NumberView, ProgramFault>(number),
        number_count(number.bits) <= machine.stack.len(),
    ensures
        ({
            let count = number_count(number.bits);
            let below = machine.stack.len() - count;
            &&& execute(node, instruction, machine) matches Step::Done(after, event)
            &&& event == Some(DialogueEvent::Line)
            &&& after.current_line.id == id
            &&& after.current_line.substitutions.len() == count
            &&& forall|i: int|
                0 <= i < count ==> #[trigger] after.current_line.substitutions[i] == value_text(
                    machine.stack[below + i],
                )
            &&& after.stack.len() == below
            &&& forall|i: int| 0 <= i < below ==> #[trigger] after.stack[i] == machine.stack[i]
        }),
{
}

/// `JumpIfFalse` never ends a run and never changes the stack. Where the
/// top of the stack is false it goes to the position of its label, and
/// where the top is true it goes on with the next instruction.
pub proof fn lemma_jump_if_false_keeps_stack(
    node: NodeView,
    instruction: InstructionView,
    machine: MachineView,
)
    requires
        instruction.opcode == OpCode::JumpIfFalse,
    ensures
        match execute(node, instruction, machine) {
            Step::Next(after) => {
                &&& after.stack == machine.stack
                &&& machine.stack.len() > 0
                &&& machine.stack.last() matches ValueView::BoolValue(flag)
                &&& flag ==> after == machine
                &&& !flag ==> (string_operand(instruction, 0) matches Ok(label)
                    && node.labels.contains_key(label) && after.current_index
                    == node.labels[label])
            },
            Step::Done(_, _) => false,
            Step::Fault(_) => true,
        },
{
}

/// Each option carries its place in the list as its number.
pub open spec fn numbered(options: Seq<OptionView>) -> bool {
    forall|i: int| 0 <= i < options.len() ==> (#[trigger] options[i]).index == i
}

/// The next instruction is `AddOption`.
pub open spec fn adds_option(nodes: Map<Seq<char>, NodeView>, machine: MachineView) -> bool {
    match fetch(nodes, machine) {
        Ok(instruction) => instruction.opcode == OpCode::AddOption,
        Err(_) => false,
    }
}

/// The number of `AddOption` instructions that a run of at most `limit`
/// steps carries out.
pub open spec fn options_added(
    nodes: Map<Seq<char>, NodeView>,
    machine: MachineView,
    limit: nat,
) -> nat
    decreases limit,
{
    if limit == 0 {
        0
    } else {
        match step(nodes, machine) {
            Step::Next(next) => options_added(nodes, next, (limit - 1) as nat) + if adds_option(
                nodes,
                machine,
            ) {
                1nat
            } else {
                0nat
            },
            _ => 0,
        }
    }
}

/// A step that carries out `AddOption` appends one option, numbered by its
/// place. Every other step leaves the list as it was.
pub proof fn lemma_step_options(nodes: Map<Seq<char>, NodeView>, machine: MachineView)
    ensures
        match step(nodes, machine) {
            Step::Next(after) => if adds_option(nodes, machine) {
                &&& after.current_options.len() == machine.current_options.len() + 1
                &&& after.current_options.drop_last() == machine.current_options
                &&& after.current_options.last().index == machine.current_options.len()
            } else {
                after.current_options == machine.current_options
            },
            Step::Done(after, _) => after.current_options == machine.current_options,
            Step::Fault(_) => true,
        },
{
    match step(nodes, machine) {
        Step::Next(after) => {
            if adds_option(nodes, machine) {
                assert(after.current_options.drop_last() =~= machine.current_options);
            }
        },
        _ => {},
    }
}

/// However a run ends, its list of options is the list it began with and,
/// after it, one option for each `AddOption` carried out, and the options
/// stay numbered by their places.
pub proof fn lemma_run_options(nodes: Map<Seq<char>, NodeView>, machine: MachineView, limit: nat)
    ensures
        run(nodes, machine, limit).machine.current_options.len() == machine.current_options.len()
            + options_added(nodes, machine, limit),
        numbered(machine.current_options) ==> numbered(
            run(nodes, machine, limit).machine.current_options,
        ),
    decreases limit,
{
    if limit > 0 {
        lemma_step_options(nodes, machine);
        match step(nodes, machine) {
            Step::Next(next) => {
                lemma_run_options(nodes, next, (limit - 1) as nat);
                if numbered(machine.current_options) {
                    assert forall|i: int| 0 <= i < next.current_options.len() implies (
                    #[trigger] next.current_options[i]).index == i by {
                        if i < machine.current_options.len() {
                            if adds_option(nodes, machine) {
                                assert(next.current_options.drop_last()[i]
                                    == next.current_options[i]);
                            }
                            assert(next.current_options[i] == machine.current_options[i]);
                        }
                    }
                }
            },
            _ => {},
        }
    }
}

/// The options that `advance` shows: starting from an empty list, a call
/// that ends with the options event leaves as many options as it carried
/// out `AddOption` instructions, numbered from zero in the order in which
/// they were added.
pub proof fn lemma_shown_options_are_counted(dialogue: DialogueView, limit: nat)
    requires
        dialogue.machine.execution_state == ExecutionState::Stopped
            || dialogue.machine.execution_state == ExecutionState::WaitingForContinue,
        dialogue.machine.current_options.len() == 0,
    ensures
        ({
            let options = advance(dialogue, limit).0.machine.current_options;
            let running = MachineView {
                execution_state: ExecutionState::Running,
                ..dialogue.machine
            };
            &&& options.len() == options_added(dialogue.nodes, running, limit)
            &&& numbered(options)
        }),
{
    let running = MachineView { execution_state: ExecutionState::Running, ..dialogue.machine };
    lemma_run_options(dialogue.nodes, running, limit);
}

/// The options of an engine are numbered by their places from the start,
/// and every call keeps them so.
pub proof fn lemma_options_stay_numbered(
    dialogue: DialogueView,
    limit: nat,
    index: int,
    program: ProgramView,
)
    requires
        numbered(dialogue.machine.current_options),
    ensures
        numbered(initial().machine.current_options),
        numbered(advance(dialogue, limit).0.machine.current_options),
        numbered(select_option(dialogue, index).0.machine.current_options),
        numbered(add_program(dialogue, program).machine.current_options),
{
    let running = MachineView { execution_state: ExecutionState::Running, ..dialogue.machine };
    lemma_run_options(dialogue.nodes, running, limit);
}

/// The machine at the first instruction of the destination of the option
/// at `index`, in the middle of a run, with the stack as it was when the
/// options were shown and with no options left.
pub open spec fn arrived_at_destination(dialogue: DialogueView, index: int) -> MachineView {
    MachineView {
        execution_state: ExecutionState::Running,
        current_node: dialogue.machine.current_options[index].destination,
        current_index: 0,
        current_options: Seq::empty(),
        ..dialogue.machine
    }
}

/// After an option is selected, a `RunNode` goes to exactly the destination
/// of that option: the call of `advance` that carries it out goes on as a
/// run from the first instruction of the destination, with the stack as it
/// was before the selection.
pub proof fn lemma_selected_option_is_run(dialogue: DialogueView, index: int, limit: nat)
    requires
        select_option(dialogue, index).1 is Ok,
        fetch(dialogue.nodes, select_option(dialogue, index).0.machine) matches Ok(instruction)
            && instruction.opcode == OpCode::RunNode,
        limit > 0,
    ensures
        ({
            let selected = select_option(dialogue, index).0;
            let arrived = arrived_at_destination(dialogue, index);
            let rest = run(dialogue.nodes, arrived, (limit - 1) as nat);
            &&& selected.machine.execution_state == ExecutionState::WaitingForContinue
            &&& selected.machine.current_options.len() == 0
            &&& advance(selected, limit).0 == (DialogueView { machine: rest.machine, ..dialogue })
            &&& advance(selected, limit).1 == rest.result
        }),
{
    let selected = select_option(dialogue, index).0;
    let running = MachineView { execution_state: ExecutionState::Running, ..selected.machine };
    let arrived = arrived_at_destination(dialogue, index);
    match step(selected.nodes, running) {
        Step::Next(after) => {
            assert(after.stack =~= dialogue.machine.stack);
            assert(after == arrived);
        },
        _ => {},
    }
}

/// A step that goes on leaves the state of the engine as it was.
pub proof fn lemma_step_state(nodes: Map<Seq<char>, NodeView>, machine: MachineView)
    ensures
        match step(nodes, machine) {
            Step::Next(after) => after.execution_state == machine.execution_state,
            Step::Done(after, Some(DialogueEvent::Options)) => after.execution_state
                == ExecutionState::WaitingOnOptionSelection,
            Step::Done(after, Some(_)) => after.execution_state
                == ExecutionState::WaitingForContinue,
            Step::Done(after, None) => after.execution_state == ExecutionState::Stopped,
            Step::Fault(_) => true,
        },
{
}

/// The state in which a run leaves the machine goes with what it reports:
/// it waits for an option after the options event, waits to go on after a
/// line or a command, is stopped at the end, and keeps the state of the run
/// after a failure.
pub proof fn lemma_run_state(nodes: Map<Seq<char>, NodeView>, machine: MachineView, limit: nat)
    ensures
        match run(nodes, machine, limit).result {
            Ok(Some(DialogueEvent::Options)) => run(nodes, machine, limit).machine.execution_state
                == ExecutionState::WaitingOnOptionSelection,
            Ok(Some(_)) => run(nodes, machine, limit).machine.execution_state
                == ExecutionState::WaitingForContinue,
            Ok(None) => run(nodes, machine, limit).machine.execution_state
                == ExecutionState::Stopped,
            Err(error) => error is Malformed && run(nodes, machine, limit).machine.execution_state
                == machine.execution_state,
        },
    decreases limit,
{
    if limit > 0 {
        lemma_step_state(nodes, machine);
        match step(nodes, machine) {
            Step::Next(next) => {
                lemma_run_state(nodes, next, (limit - 1) as nat);
            },
            _ => {},
        }
    }
}

/// `advance` is refused, and changes nothing, in the middle of a run and
/// while an option is awaited.
pub proof fn lemma_advance_refused(dialogue: DialogueView, limit: nat)
    requires
        dialogue.machine.execution_state == ExecutionState::Running
            || dialogue.machine.execution_state == ExecutionState::WaitingOnOptionSelection,
    ensures
        advance(dialogue, limit).0 == dialogue,
        advance(dialogue, limit).1 matches Err(DialogueError::Misuse(_)),
{
}

/// `advance` cannot be called twice in a row where the first call asked
/// for an option or failed: the second call is refused. It is only after a
/// line, a command or the end of the program that the engine goes on.
pub proof fn lemma_advance_twice(dialogue: DialogueView, first: nat, second: nat)
    ensures
        match advance(dialogue, first).1 {
            Ok(Some(DialogueEvent::Options)) => advance(advance(dialogue, first).0, second).1
                == Err::<Option<DialogueEvent>, DialogueError>(
                DialogueError::Misuse(ContractViolation::WaitingForOption),
            ),
            Ok(_) => !(advance(advance(dialogue, first).0, second).1 matches Err(
                DialogueError::Misuse(_),
            )),
            Err(_) => advance(advance(dialogue, first).0, second).1 matches Err(
                DialogueError::Misuse(_),
            ),
        },
{
    let running = MachineView { execution_state: ExecutionState::Running, ..dialogue.machine };
    lemma_run_state(dialogue.nodes, running, first);
    let after = advance(dialogue, first).0;
    let again = MachineView { execution_state: ExecutionState::Running, ..after.machine };
    lemma_run_state(after.nodes, again, second);
}

/// Where two programs define a node of the same name, the one added later
/// is the one that the engine holds.
pub proof fn lemma_later_program_wins(
    dialogue: DialogueView,
    earlier: ProgramView,
    later: ProgramView,
    name: Seq<char>,
)
    requires
        later.nodes.contains_key(name),
    ensures
        add_program(add_program(dialogue, earlier), later).nodes.contains_key(name),
        add_program(add_program(dialogue, earlier), later).nodes[name] == later.nodes[name],
{
}

/// The bit pattern of the whole number `n` whose binary numeral has
/// `e + 1` digits: no sign, the exponent `e` above its bias of 127, and as
/// fraction the digits of `n` behind the leading one, moved to the top of
/// the 23 fraction bits.
pub open spec fn whole_number_bits(n: nat, e: nat) -> u32
    recommends
        e <= 23,
        pow2(e) <= n < 2 * pow2(e),
{
    ((127 + e) * 0x80_0000 + (n - pow2(e)) * pow2((23 - e) as nat)) as u32
}

/// A whole number counts itself: every positive whole number below two to
/// the power of 24, written as a number of the engine, counts exactly as
/// much as it is. Zero, whose bit pattern is zero, counts nothing.
pub proof fn lemma_whole_number_counts_itself(n: nat, e: nat)
    requires
        e <= 23,
        pow2(e) <= n < 2 * pow2(e),
    ensures
        number_count(whole_number_bits(n, e)) == n,
        number_count(0) == 0,
{
    let p = pow2(e);
    let q = pow2((23 - e) as nat);
    lemma2_to64();
    lemma_pow2_adds(e, (23 - e) as nat);
    lemma_pow2_pos(e);
    lemma_pow2_pos((23 - e) as nat);
    assert(p * q == 0x80_0000);
    let fraction = (n - p) * q;
    assert(0 <= fraction < 0x80_0000) by (nonlinear_arith)
        requires
            fraction == (n - p) * q,
            p * q == 0x80_0000,
            p <= n < 2 * p,
            q > 0,
    ;
    let raw = (127 + e) * 0x80_0000 + fraction;
    assert(0 <= raw < 0x8000_0000) by (nonlinear_arith)
        requires
            raw == (127 + e) * 0x80_0000 + fraction,
            0 <= fraction < 0x80_0000,
            e <= 23,
    ;
    let bits = whole_number_bits(n, e);
    assert(bits == raw);
    assert(bits / 0x80_0000 == 127 + e && bits % 0x80_0000 == fraction) by (nonlinear_arith)
        requires
            bits == (127 + e) * 0x80_0000 + fraction,
            0 <= fraction < 0x80_0000,
    ;
    assert(0x80_0000 + fraction == n * q) by (nonlinear_arith)
        requires
            fraction == (n - p) * q,
            p * q == 0x80_0000,
    ;
    let exponent = (bits / 0x80_0000) % 0x100;
    assert(exponent == 127 + e);
    assert(bits % 0x80_0000 == fraction);
    if e == 23 {
        assert(q == 1);
        assert((exponent - 150) as nat == 0);
        assert(number_count(bits) == ((0x80_0000 + fraction) * pow2(0)) as nat);
        assert((0x80_0000 + fraction) * pow2(0) == n) by (nonlinear_arith)
            requires
                0x80_0000 + fraction == n * q,
                q == 1,
                pow2(0) == 1,
        ;
    } else {
        assert((150 - exponent) as nat == (23 - e) as nat);
        assert(number_count(bits) == ((0x80_0000 + fraction) / (q as int)) as nat);
        assert((n * q) as int / (q as int) == n) by (nonlinear_arith)
            requires
                q > 0,
        ;
    }
}

} // verus!
