use yarn_spool::{
    ContractViolation, Dialogue, DialogueError, DialogueEvent, Instruction, Node, Number, OpCode,
    Operand, Program, ProgramFault, Table, Value,
};

fn text(value: &str) -> Operand {
    Operand { value: Some(Value::StringValue(value.to_string())) }
}

fn flag(value: bool) -> Operand {
    Operand { value: Some(Value::BoolValue(value)) }
}

fn number_value(value: f32) -> Value {
    Value::NumberValue(Number { bits: value.to_bits(), text: value.to_string() })
}

fn number(value: f32) -> Operand {
    Operand { value: Some(number_value(value)) }
}

fn op(opcode: OpCode, operands: Vec<Operand>) -> Instruction {
    Instruction { opcode, operands }
}

fn node(name: &str, instructions: Vec<Instruction>, labels: &[(&str, usize)]) -> Node {
    let mut table = Table::new();
    for (label, target) in labels {
        table.insert(label.to_string(), *target);
    }
    Node { name: name.to_string(), instructions, labels: table }
}

fn program(nodes: Vec<Node>) -> Program {
    let mut program = Program::new();
    for node in nodes {
        program.nodes.insert(node.name.clone(), node);
    }
    program
}

fn dialogue(nodes: Vec<Node>) -> Dialogue {
    let mut dialogue = Dialogue::new();
    dialogue.add_program(&program(nodes));
    dialogue
}

fn start(instructions: Vec<Instruction>) -> Dialogue {
    dialogue(vec![node("Start", instructions, &[])])
}

fn malformed(fault: ProgramFault) -> Result<Option<DialogueEvent>, DialogueError> {
    Err(DialogueError::Malformed(fault))
}

fn misuse(violation: ContractViolation) -> Result<Option<DialogueEvent>, DialogueError> {
    Err(DialogueError::Misuse(violation))
}

fn strings(values: &[&str]) -> Vec<String> {
    values.iter().map(|value| value.to_string()).collect()
}

#[test]
fn new_dialogue_has_nothing_to_show() {
    let dialogue = Dialogue::new();
    assert_eq!(dialogue.current_line().id, "");
    assert!(dialogue.current_line().substitutions.is_empty());
    assert_eq!(dialogue.current_command(), "");
    assert!(dialogue.current_options().is_empty());
}

#[test]
fn default_dialogue_is_a_new_dialogue() {
    let mut dialogue = Dialogue::default();
    assert_eq!(dialogue.current_command(), "");
    assert_eq!(dialogue.advance(), malformed(ProgramFault::UnknownNode));
}

#[test]
fn run_node_chains_into_the_line_of_the_next_node() {
    let mut dialogue = dialogue(vec![
        node("Start", vec![op(OpCode::PushString, vec![text("A")]), op(OpCode::RunNode, vec![])], &[]),
        node(
            "A",
            vec![
                op(OpCode::PushFloat, vec![number(2.0)]),
                op(OpCode::PushFloat, vec![number(3.0)]),
                op(OpCode::RunLine, vec![text("line1"), number(0.0)]),
                op(OpCode::Stop, vec![]),
            ],
            &[],
        ),
    ]);
    assert_eq!(dialogue.advance(), Ok(Some(DialogueEvent::Line)));
    assert_eq!(dialogue.current_line().id, "line1");
    assert!(dialogue.current_line().substitutions.is_empty());
    assert_eq!(dialogue.advance(), Ok(None));
}

#[test]
fn jump_if_false_skips_and_leaves_the_stack() {
    let mut dialogue = dialogue(vec![node(
        "Start",
        vec![
            op(OpCode::PushString, vec![text("keep")]),
            op(OpCode::PushBool, vec![flag(false)]),
            op(OpCode::JumpIfFalse, vec![text("end")]),
            op(OpCode::RunCommand, vec![text("not skipped")]),
            op(OpCode::RunLine, vec![text("line"), number(2.0)]),
            op(OpCode::Pop, vec![]),
        ],
        &[("end", 4)],
    )]);
    assert_eq!(dialogue.advance(), Ok(Some(DialogueEvent::Line)));
    assert_eq!(dialogue.current_line().id, "line");
    assert_eq!(dialogue.current_line().substitutions, strings(&["keep", "false"]));
    assert_eq!(dialogue.current_command(), "");
    assert_eq!(dialogue.advance(), malformed(ProgramFault::StackUnderflow));
}

#[test]
fn jump_if_false_goes_on_where_the_top_is_true() {
    let mut dialogue = dialogue(vec![node(
        "Start",
        vec![
            op(OpCode::PushBool, vec![flag(true)]),
            op(OpCode::JumpIfFalse, vec![]),
            op(OpCode::RunCommand, vec![text("not skipped")]),
            op(OpCode::RunLine, vec![text("line"), number(1.0)]),
        ],
        &[],
    )]);
    assert_eq!(dialogue.advance(), Ok(Some(DialogueEvent::Command)));
    assert_eq!(dialogue.current_command(), "not skipped");
    assert_eq!(dialogue.advance(), Ok(Some(DialogueEvent::Line)));
    assert_eq!(dialogue.current_line().substitutions, strings(&["true"]));
}

#[test]
fn jump_if_false_needs_a_truth_value() {
    let mut empty = start(vec![op(OpCode::JumpIfFalse, vec![text("end")])]);
    assert_eq!(empty.advance(), malformed(ProgramFault::StackUnderflow));
    let mut wrong = start(vec![
        op(OpCode::PushString, vec![text("no")]),
        op(OpCode::JumpIfFalse, vec![text("end")]),
    ]);
    assert_eq!(wrong.advance(), malformed(ProgramFault::UnexpectedValue));
    let mut unlabelled = start(vec![
        op(OpCode::PushBool, vec![flag(false)]),
        op(OpCode::JumpIfFalse, vec![text("end")]),
    ]);
    assert_eq!(unlabelled.advance(), malformed(ProgramFault::UnknownLabel));
}

#[test]
fn later_program_redefines_a_node() {
    let mut dialogue = Dialogue::new();
    dialogue.add_program(&program(vec![
        node("Start", vec![op(OpCode::RunCommand, vec![text("first")])], &[]),
        node("Other", vec![op(OpCode::RunCommand, vec![text("other")])], &[]),
    ]));
    dialogue.add_program(&program(vec![node(
        "Start",
        vec![
            op(OpCode::RunCommand, vec![text("second")]),
            op(OpCode::PushString, vec![text("Other")]),
            op(OpCode::RunNode, vec![]),
        ],
        &[],
    )]));
    assert_eq!(dialogue.advance(), Ok(Some(DialogueEvent::Command)));
    assert_eq!(dialogue.current_command(), "second");
    assert_eq!(dialogue.advance(), Ok(Some(DialogueEvent::Command)));
    assert_eq!(dialogue.current_command(), "other");
}

#[test]
fn the_key_of_the_table_names_the_node() {
    let mut program = Program::new();
    program.nodes.insert(
        "Start".to_string(),
        node("Elsewhere", vec![op(OpCode::Stop, vec![])], &[]),
    );
    let mut dialogue = Dialogue::new();
    dialogue.add_program(&program);
    assert_eq!(dialogue.advance(), Ok(None));
}

#[test]
fn stored_variable_reads_back_the_last_value() {
    let mut dialogue = start(vec![
        op(OpCode::PushFloat, vec![number(1.0)]),
        op(OpCode::StoreVariable, vec![text("$x")]),
        op(OpCode::PushFloat, vec![number(7.5)]),
        op(OpCode::StoreVariable, vec![text("$y")]),
        op(OpCode::PushFloat, vec![number(2.0)]),
        op(OpCode::StoreVariable, vec![text("$x")]),
        op(OpCode::PushVariable, vec![text("$x")]),
        op(OpCode::PushVariable, vec![text("$y")]),
        op(OpCode::PushVariable, vec![text("$x")]),
        op(OpCode::RunLine, vec![text("line"), number(3.0)]),
        op(OpCode::Pop, vec![]),
    ]);
    assert_eq!(dialogue.advance(), Ok(Some(DialogueEvent::Line)));
    assert_eq!(dialogue.current_line().substitutions, strings(&["2", "7.5", "2"]));
    assert_eq!(dialogue.advance(), malformed(ProgramFault::StackUnderflow));
}

#[test]
fn initial_values_seed_the_variables() {
    let mut first = program(vec![node(
        "Start",
        vec![
            op(OpCode::PushVariable, vec![text("$name")]),
            op(OpCode::PushVariable, vec![text("$seen")]),
            op(OpCode::RunLine, vec![text("line"), number(2.0)]),
        ],
        &[],
    )]);
    first.initial_values.insert("$name".to_string(), Value::StringValue("Ann".to_string()));
    first.initial_values.insert("$seen".to_string(), Value::BoolValue(false));
    let mut second = Program::new();
    second.initial_values.insert("$name".to_string(), Value::StringValue("Bea".to_string()));
    let mut dialogue = Dialogue::new();
    dialogue.add_program(&first);
    dialogue.add_program(&second);
    assert_eq!(dialogue.advance(), Ok(Some(DialogueEvent::Line)));
    assert_eq!(dialogue.current_line().substitutions, strings(&["Bea", "false"]));
}

#[test]
fn run_line_takes_the_top_values_in_stack_order() {
    let mut dialogue = start(vec![
        op(OpCode::PushString, vec![text("a")]),
        op(OpCode::PushString, vec![text("b")]),
        op(OpCode::PushString, vec![text("c")]),
        op(OpCode::RunLine, vec![text("first"), number(2.0)]),
        op(OpCode::RunLine, vec![text("second"), number(1.0)]),
        op(OpCode::RunLine, vec![text("third"), number(1.0)]),
    ]);
    assert_eq!(dialogue.advance(), Ok(Some(DialogueEvent::Line)));
    assert_eq!(dialogue.current_line().id, "first");
    assert_eq!(dialogue.current_line().substitutions, strings(&["b", "c"]));
    assert_eq!(dialogue.advance(), Ok(Some(DialogueEvent::Line)));
    assert_eq!(dialogue.current_line().id, "second");
    assert_eq!(dialogue.current_line().substitutions, strings(&["a"]));
    assert_eq!(dialogue.advance(), malformed(ProgramFault::StackUnderflow));
    assert_eq!(dialogue.current_line().id, "second");
}

#[test]
fn run_line_cuts_its_count_off_towards_zero() {
    let mut dialogue = start(vec![
        op(OpCode::PushString, vec![text("a")]),
        op(OpCode::PushString, vec![text("b")]),
        op(OpCode::RunLine, vec![text("first"), number(1.9)]),
        op(OpCode::RunLine, vec![text("second"), number(-4.0)]),
        op(OpCode::RunLine, vec![text("third"), number(f32::NAN)]),
        op(OpCode::RunLine, vec![text("fourth"), number(f32::INFINITY)]),
    ]);
    assert_eq!(dialogue.advance(), Ok(Some(DialogueEvent::Line)));
    assert_eq!(dialogue.current_line().substitutions, strings(&["b"]));
    assert_eq!(dialogue.advance(), Ok(Some(DialogueEvent::Line)));
    assert_eq!(dialogue.current_line().id, "second");
    assert!(dialogue.current_line().substitutions.is_empty());
    assert_eq!(dialogue.advance(), Ok(Some(DialogueEvent::Line)));
    assert_eq!(dialogue.current_line().id, "third");
    assert!(dialogue.current_line().substitutions.is_empty());
    assert_eq!(dialogue.advance(), malformed(ProgramFault::StackUnderflow));
}

#[test]
fn run_line_checks_its_operands() {
    let mut missing = start(vec![op(OpCode::RunLine, vec![text("line")])]);
    assert_eq!(missing.advance(), malformed(ProgramFault::MissingOperand));
    let mut wrong_id = start(vec![op(OpCode::RunLine, vec![number(1.0), number(0.0)])]);
    assert_eq!(wrong_id.advance(), malformed(ProgramFault::UnexpectedOperand));
    let mut wrong_count = start(vec![op(OpCode::RunLine, vec![text("line"), text("0")])]);
    assert_eq!(wrong_count.advance(), malformed(ProgramFault::UnexpectedOperand));
}

#[test]
fn run_command_hands_out_the_command() {
    let mut dialogue = start(vec![
        op(OpCode::RunCommand, vec![text("wait 2")]),
        op(OpCode::RunCommand, vec![text("shake")]),
        op(OpCode::RunCommand, vec![]),
    ]);
    assert_eq!(dialogue.advance(), Ok(Some(DialogueEvent::Command)));
    assert_eq!(dialogue.current_command(), "wait 2");
    assert_eq!(dialogue.advance(), Ok(Some(DialogueEvent::Command)));
    assert_eq!(dialogue.current_command(), "shake");
    assert_eq!(dialogue.advance(), malformed(ProgramFault::MissingOperand));
    assert_eq!(dialogue.current_command(), "shake");
}

fn options_program() -> Vec<Node> {
    vec![
        node(
            "Start",
            vec![
                op(OpCode::AddOption, vec![text("opt-a"), text("A"), number(0.0), flag(false)]),
                op(OpCode::PushBool, vec![flag(false)]),
                op(OpCode::PushString, vec![text("x")]),
                op(OpCode::PushFloat, vec![number(1.5)]),
                op(OpCode::AddOption, vec![text("opt-b"), text("B"), number(2.0), flag(true)]),
                op(OpCode::PushBool, vec![flag(true)]),
                op(OpCode::AddOption, vec![text("opt-c"), text("C"), number(0.0), flag(true)]),
                op(OpCode::ShowOptions, vec![]),
                op(OpCode::RunNode, vec![]),
            ],
            &[],
        ),
        node("A", vec![op(OpCode::RunLine, vec![text("in-a"), number(0.0)])], &[]),
        node("B", vec![op(OpCode::RunLine, vec![text("in-b"), number(0.0)])], &[]),
        node("C", vec![op(OpCode::RunLine, vec![text("in-c"), number(0.0)])], &[]),
    ]
}

#[test]
fn options_are_numbered_in_the_order_they_were_added() {
    let mut dialogue = dialogue(options_program());
    assert_eq!(dialogue.advance(), Ok(Some(DialogueEvent::Options)));
    let options = dialogue.current_options();
    assert_eq!(options.len(), 3);
    for (place, option) in options.iter().enumerate() {
        assert_eq!(option.index, place);
    }
    assert_eq!(options[0].line.id, "opt-a");
    assert_eq!(options[0].destination, "A");
    assert!(options[0].available);
    assert!(options[0].line.substitutions.is_empty());
    assert_eq!(options[1].line.id, "opt-b");
    assert_eq!(options[1].destination, "B");
    assert!(!options[1].available);
    assert_eq!(options[1].line.substitutions, strings(&["x", "1.5"]));
    assert_eq!(options[2].line.id, "opt-c");
    assert_eq!(options[2].destination, "C");
    assert!(options[2].available);
}

#[test]
fn selected_option_runs_its_destination() {
    let mut dialogue = dialogue(options_program());
    assert_eq!(dialogue.advance(), Ok(Some(DialogueEvent::Options)));
    assert_eq!(dialogue.set_selected_option(1), Ok(()));
    assert!(dialogue.current_options().is_empty());
    assert_eq!(dialogue.advance(), Ok(Some(DialogueEvent::Line)));
    assert_eq!(dialogue.current_line().id, "in-b");
}

#[test]
fn options_start_from_zero_again_after_a_selection() {
    let mut dialogue = dialogue(vec![node(
        "Start",
        vec![
            op(OpCode::AddOption, vec![text("one"), text("Start"), number(0.0), flag(false)]),
            op(OpCode::AddOption, vec![text("two"), text("Start"), number(0.0), flag(false)]),
            op(OpCode::ShowOptions, vec![]),
            op(OpCode::Pop, vec![]),
            op(OpCode::AddOption, vec![text("three"), text("Start"), number(0.0), flag(false)]),
            op(OpCode::ShowOptions, vec![]),
        ],
        &[],
    )]);
    assert_eq!(dialogue.advance(), Ok(Some(DialogueEvent::Options)));
    assert_eq!(dialogue.current_options().len(), 2);
    assert_eq!(dialogue.set_selected_option(0), Ok(()));
    assert_eq!(dialogue.advance(), Ok(Some(DialogueEvent::Options)));
    assert_eq!(dialogue.current_options().len(), 1);
    assert_eq!(dialogue.current_options()[0].index, 0);
    assert_eq!(dialogue.current_options()[0].line.id, "three");
}

#[test]
fn advance_is_refused_while_an_option_is_awaited() {
    let mut dialogue = dialogue(options_program());
    assert_eq!(dialogue.advance(), Ok(Some(DialogueEvent::Options)));
    assert_eq!(dialogue.advance(), misuse(ContractViolation::WaitingForOption));
    assert_eq!(dialogue.advance(), misuse(ContractViolation::WaitingForOption));
    assert_eq!(dialogue.current_options().len(), 3);
    assert_eq!(dialogue.set_selected_option(2), Ok(()));
    assert_eq!(dialogue.advance(), Ok(Some(DialogueEvent::Line)));
    assert_eq!(dialogue.current_line().id, "in-c");
}

#[test]
fn advance_is_refused_after_a_failed_run() {
    let mut dialogue = start(vec![op(OpCode::Pop, vec![])]);
    assert_eq!(dialogue.advance(), malformed(ProgramFault::StackUnderflow));
    assert_eq!(dialogue.advance(), misuse(ContractViolation::AlreadyRunning));
    assert_eq!(
        dialogue.set_selected_option(0),
        Err(DialogueError::Misuse(ContractViolation::NotWaitingForOption))
    );
}

#[test]
fn selection_is_refused_unless_an_option_is_awaited() {
    let mut dialogue = dialogue(options_program());
    assert_eq!(
        dialogue.set_selected_option(0),
        Err(DialogueError::Misuse(ContractViolation::NotWaitingForOption))
    );
    assert_eq!(dialogue.advance(), Ok(Some(DialogueEvent::Options)));
    assert_eq!(dialogue.set_selected_option(0), Ok(()));
    assert_eq!(
        dialogue.set_selected_option(0),
        Err(DialogueError::Misuse(ContractViolation::NotWaitingForOption))
    );
}

#[test]
fn selection_out_of_bounds_is_refused_and_changes_nothing() {
    let mut dialogue = dialogue(options_program());
    assert_eq!(dialogue.advance(), Ok(Some(DialogueEvent::Options)));
    assert_eq!(
        dialogue.set_selected_option(3),
        Err(DialogueError::Misuse(ContractViolation::OptionOutOfBounds))
    );
    assert_eq!(
        dialogue.set_selected_option(usize::MAX),
        Err(DialogueError::Misuse(ContractViolation::OptionOutOfBounds))
    );
    assert_eq!(dialogue.current_options().len(), 3);
    assert_eq!(dialogue.set_selected_option(0), Ok(()));
    assert_eq!(dialogue.advance(), Ok(Some(DialogueEvent::Line)));
    assert_eq!(dialogue.current_line().id, "in-a");
}

#[test]
fn show_options_without_options_cannot_be_answered() {
    let mut dialogue = start(vec![op(OpCode::ShowOptions, vec![])]);
    assert_eq!(dialogue.advance(), Ok(Some(DialogueEvent::Options)));
    assert!(dialogue.current_options().is_empty());
    assert_eq!(
        dialogue.set_selected_option(0),
        Err(DialogueError::Misuse(ContractViolation::OptionOutOfBounds))
    );
}

#[test]
fn add_option_checks_operands_before_the_stack() {
    let mut short = start(vec![op(
        OpCode::AddOption,
        vec![text("opt"), text("A"), number(5.0)],
    )]);
    assert_eq!(short.advance(), malformed(ProgramFault::MissingOperand));
    let mut wrong = start(vec![op(
        OpCode::AddOption,
        vec![text("opt"), flag(true), number(0.0), flag(false)],
    )]);
    assert_eq!(wrong.advance(), malformed(ProgramFault::UnexpectedOperand));
    let mut underflow = start(vec![op(
        OpCode::AddOption,
        vec![text("opt"), text("A"), number(1.0), flag(false)],
    )]);
    assert_eq!(underflow.advance(), malformed(ProgramFault::StackUnderflow));
    let mut no_condition = start(vec![
        op(OpCode::PushString, vec![text("x")]),
        op(OpCode::AddOption, vec![text("opt"), text("A"), number(1.0), flag(true)]),
    ]);
    assert_eq!(no_condition.advance(), malformed(ProgramFault::StackUnderflow));
    let mut wrong_condition = start(vec![
        op(OpCode::PushString, vec![text("x")]),
        op(OpCode::AddOption, vec![text("opt"), text("A"), number(0.0), flag(true)]),
    ]);
    assert_eq!(wrong_condition.advance(), malformed(ProgramFault::UnexpectedValue));
}

#[test]
fn failed_add_option_leaves_the_stack() {
    let mut dialogue = dialogue(vec![node(
        "Start",
        vec![
            op(OpCode::PushString, vec![text("cond")]),
            op(OpCode::PushString, vec![text("x")]),
            op(OpCode::AddOption, vec![text("opt"), text("A"), number(1.0), flag(true)]),
        ],
        &[],
    )]);
    assert_eq!(dialogue.advance(), malformed(ProgramFault::UnexpectedValue));
    assert!(dialogue.current_options().is_empty());
}

#[test]
fn jump_to_goes_to_the_label() {
    let mut dialogue = dialogue(vec![node(
        "Start",
        vec![
            op(OpCode::JumpTo, vec![text("there")]),
            op(OpCode::RunCommand, vec![text("skipped")]),
            op(OpCode::RunCommand, vec![text("reached")]),
        ],
        &[("there", 2)],
    )]);
    assert_eq!(dialogue.advance(), Ok(Some(DialogueEvent::Command)));
    assert_eq!(dialogue.current_command(), "reached");
}

#[test]
fn jump_takes_its_label_from_the_stack_and_leaves_it_there() {
    let mut dialogue = dialogue(vec![node(
        "Start",
        vec![
            op(OpCode::PushString, vec![text("there")]),
            op(OpCode::Jump, vec![]),
            op(OpCode::RunCommand, vec![text("skipped")]),
            op(OpCode::RunLine, vec![text("reached"), number(1.0)]),
            op(OpCode::Pop, vec![]),
        ],
        &[("there", 3)],
    )]);
    assert_eq!(dialogue.advance(), Ok(Some(DialogueEvent::Line)));
    assert_eq!(dialogue.current_line().id, "reached");
    assert_eq!(dialogue.current_line().substitutions, strings(&["there"]));
    assert_eq!(dialogue.advance(), malformed(ProgramFault::StackUnderflow));
}

#[test]
fn jump_needs_a_label_on_the_stack() {
    let mut empty = start(vec![op(OpCode::Jump, vec![])]);
    assert_eq!(empty.advance(), malformed(ProgramFault::StackUnderflow));
    let mut wrong = start(vec![op(OpCode::PushBool, vec![flag(true)]), op(OpCode::Jump, vec![])]);
    assert_eq!(wrong.advance(), malformed(ProgramFault::UnexpectedValue));
    let mut unknown =
        start(vec![op(OpCode::PushString, vec![text("nowhere")]), op(OpCode::Jump, vec![])]);
    assert_eq!(unknown.advance(), malformed(ProgramFault::UnknownLabel));
}

#[test]
fn labels_belong_to_their_node() {
    let mut dialogue = dialogue(vec![
        node(
            "Start",
            vec![op(OpCode::PushString, vec![text("Other")]), op(OpCode::RunNode, vec![])],
            &[("here", 0)],
        ),
        node("Other", vec![op(OpCode::JumpTo, vec![text("here")])], &[]),
    ]);
    assert_eq!(dialogue.advance(), malformed(ProgramFault::UnknownLabel));
}

#[test]
fn jump_beyond_the_node_fails_at_the_next_instruction() {
    let mut dialogue = dialogue(vec![node(
        "Start",
        vec![op(OpCode::JumpTo, vec![text("far")])],
        &[("far", usize::MAX)],
    )]);
    assert_eq!(dialogue.advance(), malformed(ProgramFault::NoInstruction));
}

#[test]
fn run_node_needs_the_name_of_a_node() {
    let mut empty = start(vec![op(OpCode::RunNode, vec![])]);
    assert_eq!(empty.advance(), malformed(ProgramFault::StackUnderflow));
    let mut wrong =
        start(vec![op(OpCode::PushFloat, vec![number(1.0)]), op(OpCode::RunNode, vec![])]);
    assert_eq!(wrong.advance(), malformed(ProgramFault::UnexpectedValue));
    let mut unknown =
        start(vec![op(OpCode::PushString, vec![text("Nowhere")]), op(OpCode::RunNode, vec![])]);
    assert_eq!(unknown.advance(), malformed(ProgramFault::UnknownNode));
}

#[test]
fn advance_without_a_start_node_fails() {
    let mut dialogue = dialogue(vec![node("Elsewhere", vec![op(OpCode::Stop, vec![])], &[])]);
    assert_eq!(dialogue.advance(), malformed(ProgramFault::UnknownNode));
}

#[test]
fn running_off_the_end_of_a_node_fails() {
    let mut empty = start(vec![]);
    assert_eq!(empty.advance(), malformed(ProgramFault::NoInstruction));
    let mut short = start(vec![op(OpCode::PushBool, vec![flag(true)])]);
    assert_eq!(short.advance(), malformed(ProgramFault::NoInstruction));
}

#[test]
fn stop_ends_the_run_and_advance_goes_on_behind_it() {
    let mut dialogue = start(vec![
        op(OpCode::Stop, vec![]),
        op(OpCode::RunCommand, vec![text("after")]),
        op(OpCode::Stop, vec![]),
    ]);
    assert_eq!(dialogue.advance(), Ok(None));
    assert_eq!(dialogue.advance(), Ok(Some(DialogueEvent::Command)));
    assert_eq!(dialogue.current_command(), "after");
    assert_eq!(dialogue.advance(), Ok(None));
    assert_eq!(dialogue.advance(), malformed(ProgramFault::NoInstruction));
}

#[test]
fn pop_takes_one_value() {
    let mut dialogue = start(vec![
        op(OpCode::PushString, vec![text("a")]),
        op(OpCode::PushString, vec![text("b")]),
        op(OpCode::Pop, vec![]),
        op(OpCode::RunLine, vec![text("line"), number(1.0)]),
        op(OpCode::Pop, vec![]),
    ]);
    assert_eq!(dialogue.advance(), Ok(Some(DialogueEvent::Line)));
    assert_eq!(dialogue.current_line().substitutions, strings(&["a"]));
    assert_eq!(dialogue.advance(), malformed(ProgramFault::StackUnderflow));
}

#[test]
fn push_checks_its_operand() {
    let mut no_text = start(vec![op(OpCode::PushString, vec![])]);
    assert_eq!(no_text.advance(), malformed(ProgramFault::MissingOperand));
    let mut empty_operand = start(vec![op(OpCode::PushString, vec![Operand { value: None }])]);
    assert_eq!(empty_operand.advance(), malformed(ProgramFault::MissingOperand));
    let mut not_text = start(vec![op(OpCode::PushString, vec![flag(true)])]);
    assert_eq!(not_text.advance(), malformed(ProgramFault::UnexpectedOperand));
    let mut not_number = start(vec![op(OpCode::PushFloat, vec![text("1")])]);
    assert_eq!(not_number.advance(), malformed(ProgramFault::UnexpectedOperand));
    let mut not_flag = start(vec![op(OpCode::PushBool, vec![number(1.0)])]);
    assert_eq!(not_flag.advance(), malformed(ProgramFault::UnexpectedOperand));
}

#[test]
fn pushed_values_render_in_lines() {
    let mut dialogue = start(vec![
        op(OpCode::PushString, vec![text("text")]),
        op(OpCode::PushBool, vec![flag(true)]),
        op(OpCode::PushFloat, vec![number(0.25)]),
        op(OpCode::PushFloat, vec![number(-3.0)]),
        op(OpCode::RunLine, vec![text("line"), number(4.0)]),
    ]);
    assert_eq!(dialogue.advance(), Ok(Some(DialogueEvent::Line)));
    assert_eq!(dialogue.current_line().substitutions, strings(&["text", "true", "0.25", "-3"]));
}

#[test]
fn variables_must_be_set_before_they_are_read() {
    let mut unset = start(vec![op(OpCode::PushVariable, vec![text("$x")])]);
    assert_eq!(unset.advance(), malformed(ProgramFault::UnknownVariable));
    let mut nothing_to_store = start(vec![op(OpCode::StoreVariable, vec![text("$x")])]);
    assert_eq!(nothing_to_store.advance(), malformed(ProgramFault::StackUnderflow));
    let mut unnamed = start(vec![
        op(OpCode::PushBool, vec![flag(true)]),
        op(OpCode::StoreVariable, vec![]),
    ]);
    assert_eq!(unnamed.advance(), malformed(ProgramFault::MissingOperand));
}

#[test]
fn store_variable_takes_the_value_off_the_stack() {
    let mut dialogue = start(vec![
        op(OpCode::PushBool, vec![flag(true)]),
        op(OpCode::StoreVariable, vec![text("$x")]),
        op(OpCode::Pop, vec![]),
    ]);
    assert_eq!(dialogue.advance(), malformed(ProgramFault::StackUnderflow));
}

#[test]
fn reserved_operations_are_not_supported() {
    let mut push_null = start(vec![op(OpCode::PushNull, vec![])]);
    assert_eq!(push_null.advance(), malformed(ProgramFault::UnsupportedOperation));
    let mut call_func = start(vec![op(OpCode::CallFunc, vec![text("visited")])]);
    assert_eq!(call_func.advance(), malformed(ProgramFault::UnsupportedOperation));
}

#[test]
fn a_run_without_a_pause_ends_at_the_limit() {
    let looping = vec![node("Start", vec![op(OpCode::JumpTo, vec![text("top")])], &[("top", 0)])];
    let mut dialogue = dialogue(looping);
    assert_eq!(dialogue.advance_within(1000), malformed(ProgramFault::NoYield));
    assert_eq!(dialogue.advance(), misuse(ContractViolation::AlreadyRunning));
}

#[test]
fn the_limit_counts_instructions() {
    let instructions = vec![
        op(OpCode::PushBool, vec![flag(true)]),
        op(OpCode::Pop, vec![]),
        op(OpCode::RunCommand, vec![text("done")]),
    ];
    let mut enough = start(instructions.clone());
    assert_eq!(enough.advance_within(3), Ok(Some(DialogueEvent::Command)));
    let mut short = start(instructions);
    assert_eq!(short.advance_within(2), malformed(ProgramFault::NoYield));
    let mut none = start(vec![op(OpCode::Stop, vec![])]);
    assert_eq!(none.advance_within(0), malformed(ProgramFault::NoYield));
}

#[test]
fn conversations_do_not_share_state() {
    let nodes = vec![node(
        "Start",
        vec![
            op(OpCode::RunCommand, vec![text("one")]),
            op(OpCode::RunCommand, vec![text("two")]),
        ],
        &[],
    )];
    let source = program(nodes);
    let mut first = Dialogue::new();
    let mut second = Dialogue::new();
    first.add_program(&source);
    second.add_program(&source);
    assert_eq!(first.advance(), Ok(Some(DialogueEvent::Command)));
    assert_eq!(first.advance(), Ok(Some(DialogueEvent::Command)));
    assert_eq!(second.advance(), Ok(Some(DialogueEvent::Command)));
    assert_eq!(first.current_command(), "two");
    assert_eq!(second.current_command(), "one");
}
