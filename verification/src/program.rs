//! The in-memory form of a compiled dialogue program: values, operands,
//! instructions, nodes, and the program that holds them.

use crate::table::Table;
use vstd::arithmetic::div_mod::lemma_div_denominator;
use vstd::arithmetic::power2::{
    lemma2_to64, lemma2_to64_rest, lemma_pow2_pos, lemma_pow2_strictly_increases,
    lemma_pow2_unfold, pow2,
};
use vstd::prelude::*;

verus! {

/// A number as the engine carries it. The engine never calculates: it copies
/// a number, counts with it and shows it. So a number is held as the bit
/// pattern of its single-precision binary form, which says how much it
/// counts, together with its canonical text, which is what the player sees.
#[derive(Debug, PartialEq)]
pub struct Number {
    /// The bit pattern: one sign bit, eight exponent bits, 23 fraction bits.
    pub bits: u32,
    /// The canonical, locale-independent text of the number.
    pub text: String,
}

/// What a [`Number`] is in contracts.
pub ghost struct NumberView {
    pub bits: u32,
    pub text: Seq<char>,
}

impl View for Number {
    type V = NumberView;

    open spec fn view(&self) -> NumberView {
        NumberView { bits: self.bits, text: self.text@ }
    }
}

/// How much a number counts: its value cut off towards zero, and nothing
/// where it is negative or not a number. The exponent field is biased by
/// 127 and the significand is the fraction with a leading one, scaled by
/// two to the power of the exponent less 23. Infinity has the largest
/// exponent field and counts more than any finite number.
pub open spec fn number_count(bits: u32) -> nat {
    let exponent = (bits / 0x80_0000) % 0x100;
    let fraction = bits % 0x80_0000;
    if bits >= 0x8000_0000 || exponent < 127 || (exponent == 255 && fraction != 0) {
        0
    } else if exponent >= 150 {
        ((0x80_0000 + fraction) * pow2((exponent - 150) as nat)) as nat
    } else {
        ((0x80_0000 + fraction) / pow2((150 - exponent) as nat) as int) as nat
    }
}

impl Number {
    /// How much the number counts, where that fits a `usize`.
    pub fn count(&self) -> (count: Option<usize>)
        ensures
            match count {
                Some(n) => n == number_count(self.bits),
                None => number_count(self.bits) > usize::MAX,
            },
    {
        let bits: u32 = self.bits;
        let exponent: u32 = (bits / 0x80_0000) % 0x100;
        let fraction: u32 = bits % 0x80_0000;
        if bits >= 0x8000_0000 || exponent < 127 || (exponent == 255 && fraction != 0) {
            return Some(0);
        }
        let significand: u64 = 0x80_0000 + fraction as u64;
        proof {
            lemma2_to64();
        }
        if exponent >= 150 {
            let shift: u32 = exponent - 150;
            if shift > 40 {
                proof {
                    lemma2_to64_rest();
                    if shift > 41 {
                        lemma_pow2_strictly_increases(41, shift as nat);
                    }
                    let power = pow2(shift as nat);
                    assert(power >= 0x200_0000_0000);
                    assert(significand * power >= 0x80_0000 * 0x200_0000_0000) by (nonlinear_arith)
                        requires
                            significand >= 0x80_0000,
                            power >= 0x200_0000_0000,
                    ;
                }
                return None;
            }
            let mut scaled: u64 = significand;
            let mut k: u32 = 0;
            while k < shift
                invariant
                    k <= shift <= 40,
                    significand < 0x100_0000,
                    scaled == significand * pow2(k as nat),
                decreases shift - k,
            {
                proof {
                    lemma2_to64_rest();
                    lemma_pow2_unfold((k + 1) as nat);
                    if k + 1 < 40 {
                        lemma_pow2_strictly_increases((k + 1) as nat, 40);
                    }
                    let power = pow2(k as nat);
                    assert(2 * power <= 0x100_0000_0000);
                    assert(significand * (2 * power) <= 0xFF_FFFF * 0x100_0000_0000)
                        by (nonlinear_arith)
                        requires
                            significand <= 0xFF_FFFF,
                            0 <= 2 * power <= 0x100_0000_0000,
                    ;
                    assert(significand * (2 * power) == 2 * (significand * power))
                        by (nonlinear_arith);
                }
                scaled = scaled * 2;
                k += 1;
            }
            if scaled > usize::MAX as u64 {
                None
            } else {
                Some(scaled as usize)
            }
        } else {
            let shift: u32 = 150 - exponent;
            let mut scaled: u64 = significand;
            let mut k: u32 = 0;
            while k < shift
                invariant
                    k <= shift <= 23,
                    significand < 0x100_0000,
                    scaled == significand as int / pow2(k as nat) as int,
                decreases shift - k,
            {
                proof {
                    lemma_pow2_unfold((k + 1) as nat);
                    lemma_pow2_pos(k as nat);
                    lemma_div_denominator(significand as int, pow2(k as nat) as int, 2);
                }
                scaled = scaled / 2;
                k += 1;
            }
            proof {
                lemma_pow2_pos(shift as nat);
                vstd::arithmetic::div_mod::lemma_div_nonincreasing(
                    significand as int,
                    pow2(shift as nat) as int,
                );
            }
            Some(scaled as usize)
        }
    }
}

impl Clone for Number {
    fn clone(&self) -> (copy: Self)
        ensures
            copy@ == self@,
    {
        Number { bits: self.bits, text: self.text.clone() }
    }
}

/// A runtime value: text, a truth value or a number.
#[derive(Debug, PartialEq)]
pub enum Value {
    StringValue(String),
    BoolValue(bool),
    NumberValue(Number),
}

/// What a [`Value`] is in contracts.
pub ghost enum ValueView {
    StringValue(Seq<char>),
    BoolValue(bool),
    NumberValue(NumberView),
}

impl View for Value {
    type V = ValueView;

    open spec fn view(&self) -> ValueView {
        match self {
            Value::StringValue(text) => ValueView::StringValue(text@),
            Value::BoolValue(flag) => ValueView::BoolValue(*flag),
            Value::NumberValue(number) => ValueView::NumberValue(number@),
        }
    }
}

impl Clone for Value {
    fn clone(&self) -> (copy: Self)
        ensures
            copy@ == self@,
    {
        match self {
            Value::StringValue(text) => Value::StringValue(text.clone()),
            Value::BoolValue(flag) => Value::BoolValue(*flag),
            Value::NumberValue(number) => Value::NumberValue(number.clone()),
        }
    }
}

/// The text that stands for a value in a line: text as it is, a truth value
/// as `true` or `false`, a number as its canonical text.
pub open spec fn value_text(value: ValueView) -> Seq<char> {
    match value {
        ValueView::StringValue(text) => text,
        ValueView::BoolValue(flag) => if flag {
            "true"@
        } else {
            "false"@
        },
        ValueView::NumberValue(number) => number.text,
    }
}

/// Turns a value into the text that stands for it in a line.
pub fn value_to_string(value: Value) -> (text: String)
    ensures
        text@ == value_text(value@),
{
    match value {
        Value::StringValue(text) => text,
        Value::BoolValue(flag) => if flag {
            "true".to_owned()
        } else {
            "false".to_owned()
        },
        Value::NumberValue(number) => number.text,
    }
}

impl From<Value> for String {
    /// The text that stands for a value in a line.
    fn from(value: Value) -> (text: String)
        ensures
            text@ == value_text(value@),
    {
        value_to_string(value)
    }
}

impl vstd::std_specs::convert::FromSpecImpl<Value> for String {
    /// A text is spoken of by its view, and no text is singled out as the
    /// result: what `from` returns is stated where `from` is written.
    open spec fn obeys_from_spec() -> bool {
        false
    }

    open spec fn from_spec(value: Value) -> String {
        choose|text: String| text@ == value_text(value@)
    }
}

/// The views of a sequence of values, one by one.
pub open spec fn values_view(values: Seq<Value>) -> Seq<ValueView> {
    values.map_values(|value: Value| value@)
}

/// One operand of an instruction: a value, or nothing.
#[derive(Debug, PartialEq)]
pub struct Operand {
    pub value: Option<Value>,
}

impl View for Operand {
    type V = Option<ValueView>;

    open spec fn view(&self) -> Option<ValueView> {
        match self.value {
            Some(value) => Some(value@),
            None => None,
        }
    }
}

impl Clone for Operand {
    fn clone(&self) -> (copy: Self)
        ensures
            copy@ == self@,
    {
        match &self.value {
            Some(value) => Operand { value: Some(value.clone()) },
            None => Operand { value: None },
        }
    }
}

/// The views of a sequence of operands, one by one.
pub open spec fn operands_view(operands: Seq<Operand>) -> Seq<Option<ValueView>> {
    operands.map_values(|operand: Operand| operand@)
}

/// The closed set of operations.
#[derive(Clone, Copy, Debug, PartialEq, Eq, Structural)]
pub enum OpCode {
    JumpTo,
    Jump,
    RunLine,
    RunCommand,
    AddOption,
    ShowOptions,
    PushString,
    PushFloat,
    PushBool,
    PushNull,
    JumpIfFalse,
    Pop,
    CallFunc,
    PushVariable,
    StoreVariable,
    Stop,
    RunNode,
}

/// An operation with its operands, which are read by position.
#[derive(Debug, PartialEq)]
pub struct Instruction {
    pub opcode: OpCode,
    pub operands: Vec<Operand>,
}

/// What an [`Instruction`] is in contracts.
pub ghost struct InstructionView {
    pub opcode: OpCode,
    pub operands: Seq<Option<ValueView>>,
}

impl View for Instruction {
    type V = InstructionView;

    open spec fn view(&self) -> InstructionView {
        InstructionView { opcode: self.opcode, operands: operands_view(self.operands@) }
    }
}

impl Clone for Instruction {
    fn clone(&self) -> (copy: Self)
        ensures
            copy@ == self@,
    {
        let mut operands: Vec<Operand> = Vec::new();
        let mut i: usize = 0;
        while i < self.operands.len()
            invariant
                i <= self.operands@.len(),
                operands@.len() == i,
                forall|j: int| 0 <= j < i ==> (#[trigger] operands@[j])@ == self.operands@[j]@,
            decreases self.operands@.len() - i,
        {
            operands.push(self.operands[i].clone());
            i += 1;
        }
        assert(operands_view(operands@) =~= operands_view(self.operands@));
        Instruction { opcode: self.opcode, operands }
    }
}

/// The views of a sequence of instructions, one by one.
pub open spec fn instructions_view(instructions: Seq<Instruction>) -> Seq<InstructionView> {
    instructions.map_values(|instruction: Instruction| instruction@)
}

/// A named unit of a program: its instructions in order, and its labels,
/// each the position of an instruction of this node.
pub struct Node {
    pub name: String,
    pub instructions: Vec<Instruction>,
    pub labels: Table<usize>,
}

/// What a [`Node`] is in contracts.
pub ghost struct NodeView {
    pub name: Seq<char>,
    pub instructions: Seq<InstructionView>,
    pub labels: Map<Seq<char>, usize>,
}

impl View for Node {
    type V = NodeView;

    open spec fn view(&self) -> NodeView {
        NodeView {
            name: self.name@,
            instructions: instructions_view(self.instructions@),
            labels: self.labels@,
        }
    }
}

impl Clone for Node {
    fn clone(&self) -> (copy: Self)
        ensures
            copy@ == self@,
    {
        let mut instructions: Vec<Instruction> = Vec::new();
        let mut i: usize = 0;
        while i < self.instructions.len()
            invariant
                i <= self.instructions@.len(),
                instructions@.len() == i,
                forall|j: int|
                    0 <= j < i ==> (#[trigger] instructions@[j])@ == self.instructions@[j]@,
            decreases self.instructions@.len() - i,
        {
            instructions.push(self.instructions[i].clone());
            i += 1;
        }
        assert(instructions_view(instructions@) =~= instructions_view(self.instructions@));
        let mut labels: Table<usize> = Table::new();
        let mut k: usize = 0;
        let count = self.labels.len();
        proof {
            self.labels.lemma_prefix(0);
        }
        while k < count
            invariant
                count == self.labels.spec_len(),
                k <= count,
                labels@ == self.labels.spec_prefix(k as int),
            decreases count - k,
        {
            proof {
                self.labels.lemma_prefix(k as int);
            }
            labels.insert(self.labels.key_at(k).clone(), *self.labels.value_at(k));
            k += 1;
        }
        proof {
            self.labels.lemma_prefix(0);
        }
        Node { name: self.name.clone(), instructions, labels }
    }
}

/// A compiled program: its nodes by name, and the values that some
/// variables start with.
pub struct Program {
    pub nodes: Table<Node>,
    pub initial_values: Table<Value>,
}

/// What a [`Program`] is in contracts.
pub ghost struct ProgramView {
    pub nodes: Map<Seq<char>, NodeView>,
    pub initial_values: Map<Seq<char>, ValueView>,
}

impl View for Program {
    type V = ProgramView;

    open spec fn view(&self) -> ProgramView {
        ProgramView { nodes: self.nodes@, initial_values: self.initial_values@ }
    }
}

impl Program {
    /// A program without nodes and without initial values.
    pub fn new() -> (program: Self)
        ensures
            program@.nodes == Map::<Seq<char>, NodeView>::empty(),
            program@.initial_values == Map::<Seq<char>, ValueView>::empty(),
    {
        Program { nodes: Table::new(), initial_values: Table::new() }
    }
}

} // verus!
