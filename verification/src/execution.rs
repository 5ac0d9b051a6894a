//! What the instructions of a native module mean: the run of a basic block,
//! instruction by instruction, until it returns.

use vstd::prelude::*;
use crate::compiler::{trial_function, widened};
use crate::native::{BlockRef, FunctionView, InstrView, Type, Value};

verus! {

/// What a value is while a function runs.
pub enum Word {
    /// The unit value.
    Unit,
    /// A 32-bit signed integer.
    Int(int),
    /// A 64-bit floating-point number, by its bit pattern.
    Float(u64),
    /// The address of the stack slot that the instruction at this place of
    /// the block reserved.
    Address(nat),
}

impl Word {
    /// The type of a word; an address has none.
    pub open spec fn ty(self) -> Option<Type> {
        match self {
            Word::Unit => Some(Type::Unit),
            Word::Int(_) => Some(Type::Int32),
            Word::Float(_) => Some(Type::Float),
            Word::Address(_) => None,
        }
    }
}

/// A running block: what its instructions have left so far, by their places,
/// and what the stack slots hold, by the places of their reservations.
pub struct Frame {
    pub left: Map<nat, Word>,
    pub slots: Map<nat, Word>,
}

/// An integer brought into the range of the 32-bit signed integers, as
/// two's-complement arithmetic does.
pub open spec fn wrapped(n: int) -> int {
    (n + 0x8000_0000) % 0x1_0000_0000 - 0x8000_0000
}

/// What an operand is to an instruction of the block `at` in the frame
/// `frame`; `None` where it is nothing there.
pub open spec fn read(frame: Frame, at: BlockRef, value: Value) -> Option<Word> {
    match value {
        Value::ConstInt { ty: Type::Unit, .. } => Some(Word::Unit),
        Value::ConstInt { ty: Type::Int32, .. } => Some(Word::Int(value.decoded_int().unwrap())),
        Value::ConstInt { ty: Type::Float, .. } => None,
        Value::ConstFloat { bits } => Some(Word::Float(bits)),
        Value::Inst { at: from, index } => if from == at && frame.left.dom().contains(index as nat) {
            Some(frame.left[index as nat])
        } else {
            None
        },
    }
}

/// How one instruction ends.
pub enum Step {
    /// The block goes on in this frame.
    Next(Frame),
    /// The function returns this word.
    Return(Word),
    /// The instruction cannot run.
    Stuck,
}

/// The run of the instruction `instr`, which stands at place `index` of the
/// block `at`, in the frame `frame`.
pub open spec fn step(frame: Frame, at: BlockRef, index: nat, instr: InstrView) -> Step {
    match instr {
        InstrView::Alloca { .. } => Step::Next(
            Frame { left: frame.left.insert(index, Word::Address(index)), ..frame },
        ),
        InstrView::Store { value, slot } => match (read(frame, at, value), read(frame, at, slot)) {
            (Some(word), Some(Word::Address(place))) => if word.ty() is Some {
                Step::Next(Frame { slots: frame.slots.insert(place, word), ..frame })
            } else {
                Step::Stuck
            },
            _ => Step::Stuck,
        },
        InstrView::Load { ty, slot, .. } => match read(frame, at, slot) {
            Some(Word::Address(place)) => if frame.slots.dom().contains(place)
                && frame.slots[place].ty() == Some(ty) {
                Step::Next(Frame { left: frame.left.insert(index, frame.slots[place]), ..frame })
            } else {
                Step::Stuck
            },
            _ => Step::Stuck,
        },
        InstrView::Add { lhs, rhs, .. } => match (read(frame, at, lhs), read(frame, at, rhs)) {
            (Some(Word::Int(a)), Some(Word::Int(b))) => Step::Next(
                Frame { left: frame.left.insert(index, Word::Int(wrapped(a + b))), ..frame },
            ),
            _ => Step::Stuck,
        },
        InstrView::Ret { value } => match read(frame, at, value) {
            Some(word) => Step::Return(word),
            None => Step::Stuck,
        },
    }
}

/// The run of the block `at` with the instructions `instrs`, from place
/// `index` on, in the frame `frame`: the word that it returns, or `None`
/// where an instruction cannot run or the block ends without a return.
pub open spec fn run_from(frame: Frame, at: BlockRef, instrs: Seq<InstrView>, index: nat) -> Option<
    Word,
>
    decreases instrs.len() - index,
{
    if index >= instrs.len() {
        None
    } else {
        match step(frame, at, index, instrs[index as int]) {
            Step::Next(next) => run_from(next, at, instrs, index + 1),
            Step::Return(word) => Some(word),
            Step::Stuck => None,
        }
    }
}

/// What a call of `function`, the function at place `func` of its module,
/// returns: the run of its entry block from an empty frame.
pub open spec fn returned(function: FunctionView, func: usize) -> Option<Word> {
    if function.blocks.len() == 0 {
        None
    } else {
        run_from(
            Frame { left: Map::empty(), slots: Map::empty() },
            BlockRef { func, block: 0 },
            function.blocks[0].instrs,
            0,
        )
    }
}

/// The entry function of the trial run returns -9989, the sum of -10000 and
/// 11, wherever in a module it stands.
pub proof fn lemma_trial_function_returns(func: usize)
    ensures
        returned(trial_function(func), func) == Some(Word::Int(-9989)),
{
    let at = BlockRef { func, block: 0 };
    let instrs = trial_function(func).blocks[0].instrs;
    let minus = Value::ConstInt { ty: Type::Int32, bits: widened(-10000i32) };
    let eleven = Value::ConstInt { ty: Type::Int32, bits: 11 };
    assert(minus.decoded_int() == Some(-10000int));
    assert(eleven.decoded_int() == Some(11int));
    let f0 = Frame { left: Map::empty(), slots: Map::empty() };
    let f1 = Frame { left: f0.left.insert(0, Word::Address(0)), ..f0 };
    let f2 = Frame { left: f1.left.insert(1, Word::Address(1)), ..f1 };
    let f3 = Frame { slots: f2.slots.insert(0, Word::Int(-10000)), ..f2 };
    let f4 = Frame { slots: f3.slots.insert(1, Word::Int(11)), ..f3 };
    let f5 = Frame { left: f4.left.insert(4, Word::Int(-10000)), ..f4 };
    let f6 = Frame { left: f5.left.insert(5, Word::Int(11)), ..f5 };
    let f7 = Frame { left: f6.left.insert(6, Word::Int(-9989)), ..f6 };
    assert(step(f0, at, 0, instrs[0]) == Step::Next(f1));
    assert(step(f1, at, 1, instrs[1]) == Step::Next(f2));
    assert(step(f2, at, 2, instrs[2]) == Step::Next(f3));
    assert(step(f3, at, 3, instrs[3]) == Step::Next(f4));
    assert(step(f4, at, 4, instrs[4]) == Step::Next(f5));
    assert(step(f5, at, 5, instrs[5]) == Step::Next(f6));
    assert(wrapped(-10000 + 11) == -9989);
    assert(step(f6, at, 6, instrs[6]) == Step::Next(f7));
    assert(step(f7, at, 7, instrs[7]) == Step::Return(Word::Int(-9989)));
    assert(run_from(f7, at, instrs, 7) == Some(Word::Int(-9989)));
    assert(run_from(f6, at, instrs, 6) == Some(Word::Int(-9989)));
    assert(run_from(f5, at, instrs, 5) == Some(Word::Int(-9989)));
    assert(run_from(f4, at, instrs, 4) == Some(Word::Int(-9989)));
    assert(run_from(f3, at, instrs, 3) == Some(Word::Int(-9989)));
    assert(run_from(f2, at, instrs, 2) == Some(Word::Int(-9989)));
    assert(run_from(f1, at, instrs, 1) == Some(Word::Int(-9989)));
    assert(run_from(f0, at, instrs, 0) == Some(Word::Int(-9989)));
}

} // verus!
