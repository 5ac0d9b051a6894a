//! The consistency of a native module: every operand is defined where it is
//! used and has the type that its instruction asks for, every block ends in
//! its one return, and every global starts from a constant.

use vstd::prelude::*;
use crate::native::{BlockRef, Instr, InstrView, Module, ModuleView, Type, Value};

verus! {

/// What an operand is to the instruction that takes it.
#[derive(Clone, Copy, Debug, PartialEq, Eq, Structural)]
pub enum Kind {
    /// A value of a type.
    Plain(Type),
    /// The address of a stack slot.
    Address,
}

/// Where a module is inconsistent.
#[derive(Clone, Copy, Debug, PartialEq, Eq, Structural)]
pub enum Message {
    /// The instruction at place `index` of the block `at` is ill-formed, or
    /// the block is empty and lacks it.
    Instr { at: BlockRef, index: usize },
    /// The global at place `index` does not start from a constant.
    Global { index: usize },
}

impl Message {
    /// The order in which the places of a module are examined: the
    /// instructions by function, block and place, then the globals.
    pub open spec fn before(self, other: Message) -> bool {
        match (self, other) {
            (Message::Instr { at: a, index: i }, Message::Instr { at: b, index: j }) => {
                a.func < b.func || (a.func == b.func && (a.block < b.block || (a.block == b.block
                    && i < j)))
            },
            (Message::Instr { .. }, Message::Global { .. }) => true,
            (Message::Global { index: i }, Message::Global { index: j }) => i < j,
            (Message::Global { .. }, Message::Instr { .. }) => false,
        }
    }
}

impl InstrView {
    /// What the instruction leaves for later instructions to use.
    pub open spec fn leaves(self) -> Option<Kind> {
        match self {
            InstrView::Alloca { .. } => Some(Kind::Address),
            InstrView::Load { ty, .. } => Some(Kind::Plain(ty)),
            InstrView::Add { .. } => Some(Kind::Plain(Type::Int32)),
            InstrView::Store { .. } => None,
            InstrView::Ret { .. } => None,
        }
    }
}

/// What a constant is; `None` for a handle that is no constant, and for an
/// integer constant of a type that is no integer type.
pub open spec fn constant_kind(value: Value) -> Option<Kind> {
    match value {
        Value::ConstInt { ty, .. } => if ty == Type::Float {
            None
        } else {
            Some(Kind::Plain(ty))
        },
        Value::ConstFloat { .. } => Some(Kind::Plain(Type::Float)),
        Value::Inst { .. } => None,
    }
}

impl ModuleView {
    /// What `value` is to the instruction at place `index` of the block `at`;
    /// `None` where that instruction cannot use it. An instruction can use
    /// the constants and what the instructions before it in its block leave.
    pub open spec fn operand(self, at: BlockRef, index: int, value: Value) -> Option<Kind> {
        match value {
            Value::Inst { at: from, index: i } => if from == at && i < index {
                self.instrs(at)[i as int].leaves()
            } else {
                None
            },
            _ => constant_kind(value),
        }
    }

    /// Whether the block `at` has a well-formed instruction at place `index`:
    /// its operands are what it asks for, and it is a return exactly if it is
    /// the last of its block.
    pub open spec fn instr_ok(self, at: BlockRef, index: int) -> bool {
        let instrs = self.instrs(at);
        &&& 0 <= index < instrs.len()
        &&& instrs[index] is Ret <==> index == instrs.len() - 1
        &&& match instrs[index] {
            InstrView::Alloca { .. } => true,
            InstrView::Store { value, slot } => {
                &&& self.operand(at, index, value) matches Some(Kind::Plain(_))
                &&& self.operand(at, index, slot) == Some(Kind::Address)
            },
            InstrView::Load { slot, .. } => self.operand(at, index, slot) == Some(Kind::Address),
            InstrView::Add { lhs, rhs, .. } => {
                &&& self.operand(at, index, lhs) == Some(Kind::Plain(Type::Int32))
                &&& self.operand(at, index, rhs) == Some(Kind::Plain(Type::Int32))
            },
            InstrView::Ret { value } => self.operand(at, index, value) == Some(
                Kind::Plain(self.functions[at.func as int].ret),
            ),
        }
    }

    /// Whether `message` names a place at which this module is inconsistent.
    pub open spec fn faulty(self, message: Message) -> bool {
        match message {
            Message::Instr { at, index } => {
                &&& self.has_block(at)
                &&& index < self.instrs(at).len() || index == 0
                &&& !self.instr_ok(at, index as int)
            },
            Message::Global { index } => {
                &&& index < self.globals.len()
                &&& constant_kind(self.globals[index as int].init) is None
            },
        }
    }

    /// Whether the module is consistent: it is inconsistent nowhere.
    pub open spec fn consistent(self) -> bool {
        forall|message: Message| !self.faulty(message)
    }
}

/// What a constant is.
pub fn kind_of_constant(value: Value) -> (kind: Option<Kind>)
    ensures
        kind == constant_kind(value),
{
    match value {
        Value::ConstInt { ty, .. } => match ty {
            Type::Float => None,
            _ => Some(Kind::Plain(ty)),
        },
        Value::ConstFloat { .. } => Some(Kind::Plain(Type::Float)),
        Value::Inst { .. } => None,
    }
}

impl Module {
    /// What `value` is to the instruction at place `index` of the block `at`.
    fn operand(&self, at: BlockRef, index: usize, value: Value) -> (kind: Option<Kind>)
        requires
            self@.has_block(at),
            index < self@.instrs(at).len(),
        ensures
            kind == self@.operand(at, index as int, value),
    {
        match value {
            Value::Inst { at: from, index: i } => {
                if from.func == at.func && from.block == at.block && i < index {
                    match &self.functions[at.func].blocks[at.block].instrs[i] {
                        Instr::Alloca { .. } => Some(Kind::Address),
                        Instr::Load { ty, .. } => Some(Kind::Plain(*ty)),
                        Instr::Add { .. } => Some(Kind::Plain(Type::Int32)),
                        Instr::Store { .. } => None,
                        Instr::Ret { .. } => None,
                    }
                } else {
                    None
                }
            },
            _ => kind_of_constant(value),
        }
    }

    /// Whether the instruction at place `index` of the block `at` is
    /// well-formed.
    fn instr_ok(&self, at: BlockRef, index: usize) -> (ok: bool)
        requires
            self@.has_block(at),
            index < self@.instrs(at).len(),
        ensures
            ok == self@.instr_ok(at, index as int),
    {
        let instrs = &self.functions[at.func].blocks[at.block].instrs;
        let last = index == instrs.len() - 1;
        match &instrs[index] {
            Instr::Alloca { .. } => !last,
            Instr::Store { value, slot } => {
                let stored = match self.operand(at, index, *value) {
                    Some(Kind::Plain(_)) => true,
                    _ => false,
                };
                let target = match self.operand(at, index, *slot) {
                    Some(Kind::Address) => true,
                    _ => false,
                };
                !last && stored && target
            },
            Instr::Load { slot, .. } => {
                let source = match self.operand(at, index, *slot) {
                    Some(Kind::Address) => true,
                    _ => false,
                };
                !last && source
            },
            Instr::Add { lhs, rhs, .. } => {
                let left = match self.operand(at, index, *lhs) {
                    Some(Kind::Plain(Type::Int32)) => true,
                    _ => false,
                };
                let right = match self.operand(at, index, *rhs) {
                    Some(Kind::Plain(Type::Int32)) => true,
                    _ => false,
                };
                !last && left && right
            },
            Instr::Ret { value } => {
                let ret = self.functions[at.func].ret;
                let returned = match self.operand(at, index, *value) {
                    Some(Kind::Plain(ty)) => ty == ret,
                    _ => false,
                };
                last && returned
            },
        }
    }

    /// Examines the module. An inconsistent module is answered with the first
    /// place, in the order of examination, at which it is inconsistent.
    pub fn verify(&self) -> (res: Result<(), Message>)
        ensures
            match res {
                Ok(_) => self@.consistent(),
                Err(message) => {
                    &&& self@.faulty(message)
                    &&& forall|other: Message| self@.faulty(other) ==> !other.before(message)
                },
            },
    {
        let mut func: usize = 0;
        while func < self.functions.len()
            invariant
                func <= self.functions.len(),
                forall|at: BlockRef, index: usize|
                    at.func < func ==> !(#[trigger] self@.faulty(Message::Instr { at, index })),
            decreases self.functions.len() - func,
        {
            let mut block: usize = 0;
            while block < self.functions[func].blocks.len()
                invariant
                    func < self.functions.len(),
                    block <= self.functions[func as int].blocks.len(),
                    forall|at: BlockRef, index: usize|
                        at.func < func || (at.func == func && at.block < block) ==> !(
                        #[trigger] self@.faulty(Message::Instr { at, index })),
                decreases self.functions[func as int].blocks.len() - block,
            {
                let at = BlockRef { func, block };
                let len = self.functions[func].blocks[block].instrs.len();
                if len == 0 {
                    return Err(Message::Instr { at, index: 0 });
                }
                let mut index: usize = 0;
                while index < len
                    invariant
                        self@.has_block(at),
                        at == (BlockRef { func, block }),
                        len == self@.instrs(at).len(),
                        index <= len,
                        len > 0,
                        forall|other: BlockRef, i: usize|
                            other.func < func || (other.func == func && (other.block < block || (
                            other.block == block && i < index))) ==> !(#[trigger] self@.faulty(
                                Message::Instr { at: other, index: i },
                            )),
                    decreases len - index,
                {
                    if !self.instr_ok(at, index) {
                        return Err(Message::Instr { at, index });
                    }
                    index += 1;
                }
                block += 1;
            }
            func += 1;
        }
        let mut global: usize = 0;
        while global < self.globals.len()
            invariant
                global <= self.globals.len(),
                forall|at: BlockRef, index: usize|
                    !(#[trigger] self@.faulty(Message::Instr { at, index })),
                forall|index: usize|
                    index < global ==> !(#[trigger] self@.faulty(Message::Global { index })),
            decreases self.globals.len() - global,
        {
            if kind_of_constant(self.globals[global].init).is_none() {
                return Err(Message::Global { index: global });
            }
            global += 1;
        }
        Ok(())
    }
}

} // verus!
