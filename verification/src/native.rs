//! The native module: a plain record of what the machine-code backend is
//! asked to build. Functions hold basic blocks, blocks hold instructions, and
//! an instruction names its operands by value handles.

use vstd::prelude::*;

verus! {

/// The types that the backend is asked for.
#[derive(Clone, Copy, Debug, PartialEq, Eq, Structural)]
pub enum Type {
    /// The backend's empty type: the type of the unit value.
    Unit,
    /// The 32-bit integer type.
    Int32,
    /// The 64-bit floating-point type.
    Float,
}

/// A basic block of a module, by the place of its function and its own place
/// in that function.
#[derive(Clone, Copy, Debug, PartialEq, Eq, Structural)]
pub struct BlockRef {
    pub func: usize,
    pub block: usize,
}

/// A value that an instruction can take as an operand.
#[derive(Clone, Copy, Debug, PartialEq, Eq, Structural)]
pub enum Value {
    /// An integer constant of type `ty`. It holds the 64 bits that the
    /// backend's constructor of integer constants takes; the constant is
    /// their low end, as wide as `ty`.
    ConstInt { ty: Type, bits: u64 },
    /// A floating-point constant, by the bit pattern of its 64-bit value.
    ConstFloat { bits: u64 },
    /// What the instruction at place `index` of a block leaves.
    Inst { at: BlockRef, index: usize },
}

impl Value {
    /// The integer that a constant of the 32-bit integer type stands for: its
    /// low 32 bits, read in two's complement. `None` for any other value.
    pub open spec fn decoded_int(self) -> Option<int> {
        match self {
            Value::ConstInt { ty: Type::Int32, bits } => {
                let low = bits as int % 0x1_0000_0000;
                Some(if low < 0x8000_0000 {
                    low
                } else {
                    low - 0x1_0000_0000
                })
            },
            _ => None,
        }
    }

    /// The bit pattern of the number that a floating-point constant stands
    /// for. `None` for any other value.
    pub open spec fn decoded_float(self) -> Option<u64> {
        match self {
            Value::ConstFloat { bits } => Some(bits),
            _ => None,
        }
    }
}

/// An instruction. A `name` is the label that the backend gives the result.
#[derive(Debug, PartialEq, Eq)]
pub enum Instr {
    /// Reserves a stack slot for a value of type `ty`; leaves its address.
    Alloca { ty: Type, name: String },
    /// Writes `value` to the slot at address `slot`.
    Store { value: Value, slot: Value },
    /// Reads a value of type `ty` from the slot at address `slot`.
    Load { ty: Type, slot: Value, name: String },
    /// Adds two 32-bit integers.
    Add { lhs: Value, rhs: Value, name: String },
    /// Leaves the function with `value`.
    Ret { value: Value },
}

/// What an instruction is, with its label as a sequence of characters.
pub enum InstrView {
    Alloca { ty: Type, name: Seq<char> },
    Store { value: Value, slot: Value },
    Load { ty: Type, slot: Value, name: Seq<char> },
    Add { lhs: Value, rhs: Value, name: Seq<char> },
    Ret { value: Value },
}

impl View for Instr {
    type V = InstrView;

    open spec fn view(&self) -> InstrView {
        match *self {
            Instr::Alloca { ty, name } => InstrView::Alloca { ty, name: name@ },
            Instr::Store { value, slot } => InstrView::Store { value, slot },
            Instr::Load { ty, slot, name } => InstrView::Load { ty, slot, name: name@ },
            Instr::Add { lhs, rhs, name } => InstrView::Add { lhs, rhs, name: name@ },
            Instr::Ret { value } => InstrView::Ret { value },
        }
    }
}

/// A basic block: a label and instructions in their order.
#[derive(Debug, PartialEq, Eq)]
pub struct Block {
    pub name: String,
    pub instrs: Vec<Instr>,
}

pub struct BlockView {
    pub name: Seq<char>,
    pub instrs: Seq<InstrView>,
}

impl View for Block {
    type V = BlockView;

    open spec fn view(&self) -> BlockView {
        BlockView {
            name: self.name@,
            instrs: Seq::new(self.instrs@.len(), |i: int| self.instrs@[i]@),
        }
    }
}

/// A function: its name, the type it returns, the types of its parameters,
/// and its basic blocks, the entry block first.
#[derive(Debug, PartialEq, Eq)]
pub struct Function {
    pub name: String,
    pub ret: Type,
    pub params: Vec<Type>,
    pub blocks: Vec<Block>,
}

pub struct FunctionView {
    pub name: Seq<char>,
    pub ret: Type,
    pub params: Seq<Type>,
    pub blocks: Seq<BlockView>,
}

impl View for Function {
    type V = FunctionView;

    open spec fn view(&self) -> FunctionView {
        FunctionView {
            name: self.name@,
            ret: self.ret,
            params: self.params@,
            blocks: Seq::new(self.blocks@.len(), |i: int| self.blocks@[i]@),
        }
    }
}

/// A module-level value with its initializer.
#[derive(Debug, PartialEq, Eq)]
pub struct Global {
    pub name: String,
    pub init: Value,
}

pub struct GlobalView {
    pub name: Seq<char>,
    pub init: Value,
}

impl View for Global {
    type V = GlobalView;

    open spec fn view(&self) -> GlobalView {
        GlobalView { name: self.name@, init: self.init }
    }
}

/// A native module.
#[derive(Debug, PartialEq, Eq)]
pub struct Module {
    pub name: String,
    pub functions: Vec<Function>,
    pub globals: Vec<Global>,
}

pub struct ModuleView {
    pub name: Seq<char>,
    pub functions: Seq<FunctionView>,
    pub globals: Seq<GlobalView>,
}

impl View for Module {
    type V = ModuleView;

    open spec fn view(&self) -> ModuleView {
        ModuleView {
            name: self.name@,
            functions: Seq::new(self.functions@.len(), |i: int| self.functions@[i]@),
            globals: Seq::new(self.globals@.len(), |i: int| self.globals@[i]@),
        }
    }
}

impl ModuleView {
    /// Whether `at` is a basic block of this module.
    pub open spec fn has_block(self, at: BlockRef) -> bool {
        at.func < self.functions.len() && at.block < self.functions[at.func as int].blocks.len()
    }

    /// The instructions of the block `at`.
    pub open spec fn instrs(self, at: BlockRef) -> Seq<InstrView> {
        self.functions[at.func as int].blocks[at.block as int].instrs
    }

    /// The module with one more function, without blocks.
    pub open spec fn add_function(self, name: Seq<char>, ret: Type, params: Seq<Type>) -> ModuleView {
        ModuleView {
            functions: self.functions.push(
                FunctionView { name, ret, params, blocks: Seq::empty() },
            ),
            ..self
        }
    }

    /// The module with one more block, without instructions, at the end of
    /// the function at place `func`.
    pub open spec fn append_block(self, func: int, name: Seq<char>) -> ModuleView {
        let function = self.functions[func];
        ModuleView {
            functions: self.functions.update(
                func,
                FunctionView {
                    blocks: function.blocks.push(BlockView { name, instrs: Seq::empty() }),
                    ..function
                },
            ),
            ..self
        }
    }

    /// The module with `instr` at the end of the block `at`.
    pub open spec fn emit(self, at: BlockRef, instr: InstrView) -> ModuleView {
        let function = self.functions[at.func as int];
        let block = function.blocks[at.block as int];
        ModuleView {
            functions: self.functions.update(
                at.func as int,
                FunctionView {
                    blocks: function.blocks.update(
                        at.block as int,
                        BlockView { instrs: block.instrs.push(instr), ..block },
                    ),
                    ..function
                },
            ),
            ..self
        }
    }

    /// The module with one more global.
    pub open spec fn add_global(self, name: Seq<char>, init: Value) -> ModuleView {
        ModuleView { globals: self.globals.push(GlobalView { name, init }), ..self }
    }
}

impl Module {
    /// A module called `name`, without functions or globals.
    pub fn new(name: &str) -> (module: Module)
        ensures
            module@ == (ModuleView {
                name: name@,
                functions: Seq::empty(),
                globals: Seq::empty(),
            }),
    {
        let module = Module { name: name.to_owned(), functions: Vec::new(), globals: Vec::new() };
        proof {
            assert(module@.functions =~= Seq::empty());
            assert(module@.globals =~= Seq::empty());
        }
        module
    }

    /// Adds a function without blocks and returns its place.
    pub fn add_function(&mut self, name: &str, ret: Type, params: Vec<Type>) -> (func: usize)
        ensures
            func == old(self)@.functions.len(),
            final(self)@ == old(self)@.add_function(name@, ret, params@),
    {
        let func = self.functions.len();
        self.functions.push(
            Function { name: name.to_owned(), ret, params, blocks: Vec::new() },
        );
        proof {
            let after = old(self)@.add_function(name@, ret, params@);
            assert(self.functions@[func as int]@.blocks =~= Seq::empty());
            assert(self@.functions =~= after.functions);
            assert(self@.globals =~= after.globals);
        }
        func
    }

    /// Adds a block without instructions at the end of the function at place
    /// `func` and returns it.
    pub fn append_basic_block(&mut self, func: usize, name: &str) -> (at: BlockRef)
        requires
            func < old(self)@.functions.len(),
        ensures
            at == (BlockRef { func, block: old(self)@.functions[func as int].blocks.len() as usize }),
            final(self)@ == old(self)@.append_block(func as int, name@),
            final(self)@.has_block(at),
    {
        let block = self.functions[func].blocks.len();
        self.functions[func].blocks.push(Block { name: name.to_owned(), instrs: Vec::new() });
        proof {
            let after = old(self)@.append_block(func as int, name@);
            assert(self.functions@[func as int].blocks@[block as int]@.instrs =~= Seq::empty());
            assert(self@.functions[func as int].blocks =~= after.functions[func as int].blocks);
            assert(self@.functions =~= after.functions);
            assert(self@.globals =~= after.globals);
        }
        BlockRef { func, block }
    }

    /// Adds the instruction `instr` at the end of the block `at` and returns
    /// the handle of what it leaves.
    pub fn emit(&mut self, at: BlockRef, instr: Instr) -> (value: Value)
        requires
            old(self)@.has_block(at),
        ensures
            value == (Value::Inst { at, index: old(self)@.instrs(at).len() as usize }),
            final(self)@ == old(self)@.emit(at, instr@),
            final(self)@.has_block(at),
    {
        let index = self.functions[at.func].blocks[at.block].instrs.len();
        self.functions[at.func].blocks[at.block].instrs.push(instr);
        proof {
            let after = old(self)@.emit(at, instr@);
            let f = at.func as int;
            let b = at.block as int;
            assert(self@.functions[f].blocks[b].instrs =~= after.functions[f].blocks[b].instrs);
            assert(self@.functions[f].blocks =~= after.functions[f].blocks);
            assert(self@.functions =~= after.functions);
            assert(self@.globals =~= after.globals);
        }
        Value::Inst { at, index }
    }

    /// Adds a global called `name` with the initializer `init`.
    pub fn add_global(&mut self, name: &str, init: Value)
        ensures
            final(self)@ == old(self)@.add_global(name@, init),
    {
        self.globals.push(Global { name: name.to_owned(), init });
        proof {
            let after = old(self)@.add_global(name@, init);
            assert(self@.functions =~= after.functions);
            assert(self@.globals =~= after.globals);
        }
    }
}

/// The instruction builder: a cursor at the end of a basic block.
#[derive(Debug, PartialEq, Eq)]
pub struct Builder {
    pub cursor: Option<BlockRef>,
}

impl Builder {
    /// A builder that stands nowhere yet.
    pub fn new() -> (builder: Builder)
        ensures
            builder.cursor is None,
    {
        Builder { cursor: None }
    }

    /// Whether the builder stands at a block of `module`.
    pub open spec fn ready(&self, module: ModuleView) -> bool {
        self.cursor is Some && module.has_block(self.cursor.unwrap())
    }

    /// Puts the cursor at the end of the block `at`.
    pub fn position_at_end(&mut self, at: BlockRef)
        ensures
            final(self).cursor == Some(at),
    {
        self.cursor = Some(at);
    }

    /// Emits the reservation of a stack slot for a value of type `ty`.
    pub fn alloca(&self, module: &mut Module, ty: Type, name: &str) -> (value: Value)
        requires
            self.ready(old(module)@),
        ensures
            final(module)@ == old(module)@.emit(
                self.cursor.unwrap(),
                InstrView::Alloca { ty, name: name@ },
            ),
            value == (Value::Inst {
                at: self.cursor.unwrap(),
                index: old(module)@.instrs(self.cursor.unwrap()).len() as usize,
            }),
            self.ready(final(module)@),
    {
        module.emit(self.cursor.unwrap(), Instr::Alloca { ty, name: name.to_owned() })
    }

    /// Emits the write of `value` to the slot at `slot`.
    pub fn store(&self, module: &mut Module, value: Value, slot: Value)
        requires
            self.ready(old(module)@),
        ensures
            final(module)@ == old(module)@.emit(
                self.cursor.unwrap(),
                InstrView::Store { value, slot },
            ),
            self.ready(final(module)@),
    {
        let _ = module.emit(self.cursor.unwrap(), Instr::Store { value, slot });
    }

    /// Emits the read of a value of type `ty` from the slot at `slot`.
    pub fn load(&self, module: &mut Module, ty: Type, slot: Value, name: &str) -> (value: Value)
        requires
            self.ready(old(module)@),
        ensures
            final(module)@ == old(module)@.emit(
                self.cursor.unwrap(),
                InstrView::Load { ty, slot, name: name@ },
            ),
            value == (Value::Inst {
                at: self.cursor.unwrap(),
                index: old(module)@.instrs(self.cursor.unwrap()).len() as usize,
            }),
            self.ready(final(module)@),
    {
        module.emit(self.cursor.unwrap(), Instr::Load { ty, slot, name: name.to_owned() })
    }

    /// Emits the addition of `lhs` and `rhs`.
    pub fn add(&self, module: &mut Module, lhs: Value, rhs: Value, name: &str) -> (value: Value)
        requires
            self.ready(old(module)@),
        ensures
            final(module)@ == old(module)@.emit(
                self.cursor.unwrap(),
                InstrView::Add { lhs, rhs, name: name@ },
            ),
            value == (Value::Inst {
                at: self.cursor.unwrap(),
                index: old(module)@.instrs(self.cursor.unwrap()).len() as usize,
            }),
            self.ready(final(module)@),
    {
        module.emit(self.cursor.unwrap(), Instr::Add { lhs, rhs, name: name.to_owned() })
    }

    /// Emits the return of `value`.
    pub fn ret(&self, module: &mut Module, value: Value)
        requires
            self.ready(old(module)@),
        ensures
            final(module)@ == old(module)@.emit(self.cursor.unwrap(), InstrView::Ret { value }),
            self.ready(final(module)@),
    {
        let _ = module.emit(self.cursor.unwrap(), Instr::Ret { value });
    }
}

} // verus!
