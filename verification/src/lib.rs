//! An execution engine for precompiled interactive-narrative scripts: a
//! stack-based bytecode interpreter that runs branching dialogue and pauses
//! whenever the host has a line to show, a command to run or a choice to
//! collect.

pub mod dialogue;
pub mod event;
pub mod laws;
pub mod machine;
pub mod program;
pub mod semantics;
pub mod strings;
pub mod substitution;
pub mod table;

pub use dialogue::{Dialogue, STEP_LIMIT};
pub use event::{
    ContractViolation, DialogueError, DialogueEvent, DialogueLine, DialogueOption, ExecutionState,
    ProgramFault,
};
pub use machine::{get_bool_operand, get_number_operand, get_operand, get_string_operand};
pub use program::{Instruction, Node, Number, OpCode, Operand, Program, Value};
pub use strings::{string_table, StringInfo};
pub use substitution::expand_substitutions;
pub use table::Table;
