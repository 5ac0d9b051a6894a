//! Code generation: from the mid-level program to the native module.

use vstd::prelude::*;
use crate::consistency::{constant_kind, Kind, Message};
use crate::dump::module_text;
use crate::error::CodegenError;
use crate::execution::{lemma_trial_function_returns, returned, Word};
use crate::mir;
use crate::mir::ProgramView;
use crate::transform::lower_node;
use crate::typing;
use crate::native::{BlockRef, BlockView, Builder, FunctionView, InstrView, Module, ModuleView, Type, Value};

verus! {

/// The 64 bits that stand for a 32-bit signed integer when it is widened with
/// its sign: the integer itself, or, below zero, its two's complement.
pub open spec fn widened(n: i32) -> u64 {
    if n >= 0 {
        n as u64
    } else {
        (0x1_0000_0000_0000_0000 + n) as u64
    }
}

/// The constant that an expression node compiles to; `None` for a kind that
/// has no code generation rule.
pub open spec fn value_of(node: mir::Node) -> Option<Value> {
    match node.kind {
        mir::NodeKind::Unit => Some(Value::ConstInt { ty: Type::Unit, bits: 0 }),
        mir::NodeKind::Int(n) => Some(Value::ConstInt { ty: Type::Int32, bits: widened(n) }),
        mir::NodeKind::Float(bits) => Some(Value::ConstFloat { bits }),
        _ => None,
    }
}

/// The module `module` with `function` as its last function.
pub open spec fn with_function(module: ModuleView, function: FunctionView) -> ModuleView {
    ModuleView { functions: module.functions.push(function), ..module }
}

/// The entry function of the trial run, for a module in which it is the
/// function at place `func`: it stores -10000 and 11 in two stack slots,
/// reads them back, adds them and returns the sum.
pub open spec fn trial_function(func: usize) -> FunctionView {
    let at = BlockRef { func, block: 0 };
    let int32 = Type::Int32;
    FunctionView {
        name: "main"@,
        ret: int32,
        params: Seq::empty(),
        blocks: seq![
            BlockView {
                name: "entry"@,
                instrs: seq![
                    InstrView::Alloca { ty: int32, name: "a"@ },
                    InstrView::Alloca { ty: int32, name: "b"@ },
                    InstrView::Store {
                        value: Value::ConstInt { ty: int32, bits: widened(-10000i32) },
                        slot: Value::Inst { at, index: 0 },
                    },
                    InstrView::Store {
                        value: Value::ConstInt { ty: int32, bits: 11 },
                        slot: Value::Inst { at, index: 1 },
                    },
                    InstrView::Load { ty: int32, slot: Value::Inst { at, index: 0 }, name: "a"@ },
                    InstrView::Load { ty: int32, slot: Value::Inst { at, index: 1 }, name: "b"@ },
                    InstrView::Add {
                        lhs: Value::Inst { at, index: 4 },
                        rhs: Value::Inst { at, index: 5 },
                        name: "addtmp"@,
                    },
                    InstrView::Ret { value: Value::Inst { at, index: 6 } },
                ],
            },
        ],
    }
}

/// The type of a constant.
pub open spec fn type_of(value: Value) -> Type {
    match value {
        Value::ConstInt { ty, .. } => ty,
        _ => Type::Float,
    }
}

/// The function without parameters that returns `value`: one block, called
/// `entry`, that holds the return.
pub open spec fn constant_function(name: Seq<char>, ret: Type, value: Value) -> FunctionView {
    FunctionView {
        name,
        ret,
        params: Seq::empty(),
        blocks: seq![BlockView { name: "entry"@, instrs: seq![InstrView::Ret { value }] }],
    }
}

/// How far code generation has come: the module built so far, and the
/// failure that stopped it, if one did.
pub struct Emission {
    pub module: ModuleView,
    pub error: Option<CodegenError>,
}

/// Code generation for the entry point, if there is one. It becomes the
/// function `main`, without parameters, which returns a 32-bit integer: the
/// value of its body.
pub open spec fn emit_main(module: ModuleView, main: Option<mir::Def>) -> Emission {
    match main {
        Some(def) => match value_of(def.body) {
            Some(value) => Emission {
                module: with_function(module, constant_function("main"@, Type::Int32, value)),
                error: None,
            },
            None => Emission { module, error: Some(CodegenError::Unsupported) },
        },
        None => Emission { module, error: None },
    }
}

/// Code generation for the declaration `decl` that stands under `name`. A
/// definition becomes a function called `name` that returns the value of its
/// body; a binding becomes a global called `name` that starts from the value
/// of its initializer. A failure leaves the module as it was.
pub open spec fn emit_decl(module: ModuleView, name: Seq<char>, decl: mir::Decl) -> Emission {
    match decl {
        mir::Decl::Def(def) => match value_of(def.body) {
            Some(value) => Emission {
                module: with_function(module, constant_function(name, type_of(value), value)),
                error: None,
            },
            None => Emission { module, error: Some(CodegenError::Unsupported) },
        },
        mir::Decl::Let(binding) => match value_of(binding.value) {
            Some(value) => Emission { module: module.add_global(name, value), error: None },
            None => Emission { module, error: Some(CodegenError::Unsupported) },
        },
    }
}

/// Code generation for the first `count` names of `program`, in their order,
/// into `start`. The first failure stops it.
pub open spec fn emit_prefix(start: ModuleView, program: ProgramView, count: nat) -> Emission
    decreases count,
{
    if count == 0 {
        Emission { module: start, error: None }
    } else {
        let before = emit_prefix(start, program, (count - 1) as nat);
        if before.error is Some {
            before
        } else {
            let name = program.names[count - 1];
            emit_decl(before.module, name, program.decls[name])
        }
    }
}

/// Code generation for a whole program into `start`: the entry point first,
/// if there is one, then the declarations in the order of their names.
pub open spec fn emit_program(start: ModuleView, program: ProgramView) -> Emission {
    let first = emit_main(start, program.main);
    if first.error is Some {
        first
    } else {
        emit_prefix(first.module, program, program.names.len())
    }
}

/// The code generator. It owns the native module that it fills and the
/// builder with which it emits instructions.
#[derive(Debug)]
pub struct Compiler {
    module: Module,
    builder: Builder,
}

impl View for Compiler {
    type V = ModuleView;

    closed spec fn view(&self) -> ModuleView {
        self.module@
    }
}

impl Compiler {
    /// A code generator with a fresh module called `main`, without functions
    /// or globals.
    pub fn new() -> (compiler: Compiler)
        ensures
            compiler@ == (ModuleView {
                name: "main"@,
                functions: Seq::empty(),
                globals: Seq::empty(),
            }),
    {
        Compiler { module: Module::new("main"), builder: Builder::new() }
    }

    /// The native module as it stands.
    pub fn module(&self) -> (module: &Module)
        ensures
            module@ == self@,
    {
        &self.module
    }

    /// The listing of the native module as it stands, for diagnostics.
    pub fn dump_module(&self) -> (text: String)
        ensures
            text@ == module_text(self@),
    {
        self.module.dump()
    }

    /// The native module, given up by the code generator.
    pub fn into_module(self) -> (module: Module)
        ensures
            module@ == self@,
    {
        self.module
    }

    /// The unit value: the zero of the backend's empty type.
    pub fn unit(&self) -> (value: Value)
        ensures
            value == (Value::ConstInt { ty: Type::Unit, bits: 0 }),
    {
        Value::ConstInt { ty: Type::Unit, bits: 0 }
    }

    /// The 32-bit integer constant `n`. The backend's constructor takes 64
    /// bits: `n` is widened with its sign.
    pub fn int32(&self, n: i32) -> (value: Value)
        ensures
            value == (Value::ConstInt { ty: Type::Int32, bits: widened(n) }),
            value.decoded_int() == Some(n as int),
    {
        let bits: libc::c_ulonglong = #[verifier::truncate] (n as libc::c_ulonglong);
        proof {
            assert(n >= 0 ==> n as u64 == n) by (bit_vector);
            assert(n < 0 ==> n as u64 == 0xffff_ffff_ffff_ffffu64 - ((-(n + 1i32)) as u64))
                by (bit_vector);
            lemma_widened_decodes(n);
        }
        Value::ConstInt { ty: Type::Int32, bits }
    }

    /// The floating-point constant with the bit pattern `bits`.
    pub fn float(&self, bits: u64) -> (value: Value)
        ensures
            value == (Value::ConstFloat { bits }),
    {
        Value::ConstFloat { bits }
    }

    /// The trial run: emits the entry function of `trial_function` at the end
    /// of the module and examines the module. The function, when it is run,
    /// returns -9989. The answer is that of the examination: `Ok` exactly if
    /// the module was consistent before, else the first place at which it is
    /// inconsistent.
    pub fn test_run(&mut self) -> (res: Result<(), Message>)
        ensures
            final(self)@ == with_function(
                old(self)@,
                trial_function(old(self)@.functions.len() as usize),
            ),
            returned(final(self)@.functions.last(), old(self)@.functions.len() as usize) == Some(
                Word::Int(-9989),
            ),
            res is Ok <==> old(self)@.consistent(),
            match res {
                Ok(_) => final(self)@.consistent(),
                Err(message) => {
                    &&& final(self)@.faulty(message)
                    &&& forall|other: Message| final(self)@.faulty(other) ==> !other.before(message)
                },
            },
    {
        let int_ty = Type::Int32;
        let fun = self.module.add_function("main", int_ty, Vec::new());
        let bb = self.module.append_basic_block(fun, "entry");
        self.builder.position_at_end(bb);
        let a = self.builder.alloca(&mut self.module, int_ty, "a");
        let b = self.builder.alloca(&mut self.module, int_ty, "b");
        let x: i32 = -10000;
        let minus = self.int32(x);
        self.builder.store(&mut self.module, minus, a);
        self.builder.store(&mut self.module, Value::ConstInt { ty: int_ty, bits: 11 }, b);
        let a = self.builder.load(&mut self.module, int_ty, a, "a");
        let b = self.builder.load(&mut self.module, int_ty, b, "b");
        let ret = self.builder.add(&mut self.module, a, b, "addtmp");
        self.builder.ret(&mut self.module, ret);
        proof {
            let function = trial_function(fun);
            let after = with_function(old(self)@, function);
            assert(self@.functions[fun as int].blocks[0].instrs =~= function.blocks[0].instrs);
            assert(self@.functions[fun as int].blocks =~= function.blocks);
            assert(self@.functions[fun as int].params =~= function.params);
            assert(self@.functions =~= after.functions);
            assert(self@.globals =~= after.globals);
            lemma_trial_function_sound(old(self)@);
            lemma_trial_function_returns(fun);
        }
        self.module.verify()
    }

    /// Emits the function called `name`, without parameters, that returns
    /// `value` as a value of type `ret`.
    fn emit_function(&mut self, name: &str, ret: Type, value: Value)
        ensures
            final(self)@ == with_function(old(self)@, constant_function(name@, ret, value)),
    {
        let fun = self.module.add_function(name, ret, Vec::new());
        let bb = self.module.append_basic_block(fun, "entry");
        self.builder.position_at_end(bb);
        self.builder.ret(&mut self.module, value);
        proof {
            let function = constant_function(name@, ret, value);
            let after = with_function(old(self)@, function);
            assert(self@.functions[fun as int].blocks[0].instrs =~= function.blocks[0].instrs);
            assert(self@.functions[fun as int].blocks =~= function.blocks);
            assert(self@.functions[fun as int].params =~= function.params);
            assert(self@.functions =~= after.functions);
            assert(self@.globals =~= after.globals);
        }
    }

    /// Compiles the declaration `decl` that stands under `name`.
    pub fn compile_decl(&mut self, name: &str, decl: &mir::Decl) -> (res: Result<(), CodegenError>)
        ensures
            final(self)@ == emit_decl(old(self)@, name@, *decl).module,
            match emit_decl(old(self)@, name@, *decl).error {
                None => res is Ok,
                Some(error) => res == Err::<(), CodegenError>(error),
            },
    {
        match decl {
            mir::Decl::Def(def) => {
                let value = match self.compile_node(&def.body) {
                    Ok(value) => value,
                    Err(error) => {
                        return Err(error);
                    },
                };
                let ret = match value {
                    Value::ConstInt { ty, .. } => ty,
                    _ => Type::Float,
                };
                self.emit_function(name, ret, value);
                Ok(())
            },
            mir::Decl::Let(binding) => {
                let value = match self.compile_node(&binding.value) {
                    Ok(value) => value,
                    Err(error) => {
                        return Err(error);
                    },
                };
                self.module.add_global(name, value);
                Ok(())
            },
        }
    }

    /// Compiles a whole program into the module: the entry point first, if
    /// there is one, then the declarations in the order of their names. The
    /// first failure ends code generation and is returned; what was emitted
    /// before it stays.
    pub fn compile_program(&mut self, program: &mir::Program) -> (res: Result<(), CodegenError>)
        ensures
            final(self)@ == emit_program(old(self)@, program@).module,
            match emit_program(old(self)@, program@).error {
                None => res is Ok,
                Some(error) => res == Err::<(), CodegenError>(error),
            },
    {
        match program.main() {
            Some(def) => {
                let value = match self.compile_node(&def.body) {
                    Ok(value) => value,
                    Err(error) => {
                        return Err(error);
                    },
                };
                self.emit_function("main", Type::Int32, value);
            },
            None => {},
        }
        let ghost first = self@;
        let entries = program.entries();
        let mut i: usize = 0;
        while i < entries.len()
            invariant
                i <= entries@.len(),
                entries@.len() == program@.names.len(),
                forall|k: int| 0 <= k < entries@.len() ==> entries@[k].0@ == program@.names[k],
                forall|k: int|
                    0 <= k < entries@.len() ==> entries@[k].1 == program@.decls[#[trigger] program@.names[k]],
                emit_prefix(first, program@, i as nat).error is None,
                self@ == emit_prefix(first, program@, i as nat).module,
                first == emit_main(old(self)@, program@.main).module,
                emit_main(old(self)@, program@.main).error is None,
            decreases entries.len() - i,
        {
            assert(entries@[i as int].1 == program@.decls[program@.names[i as int]]);
            match self.compile_decl(entries[i].0.as_str(), &entries[i].1) {
                Ok(_) => {},
                Err(error) => {
                    proof {
                        lemma_emission_failure_is_final(first, program@, (i + 1) as nat);
                    }
                    return Err(error);
                },
            }
            i += 1;
        }
        Ok(())
    }

    /// Compiles one expression node to the value that it stands for. A kind
    /// without a code generation rule is rejected; nothing stands in for it.
    /// The module is not touched.
    pub fn compile_node(&mut self, node: &mir::Node) -> (res: Result<Value, CodegenError>)
        ensures
            final(self)@ == old(self)@,
            match value_of(*node) {
                Some(value) => res == Ok::<Value, CodegenError>(value),
                None => res == Err::<Value, CodegenError>(CodegenError::Unsupported),
            },
    {
        match node.kind {
            mir::NodeKind::Unit => Ok(self.unit()),
            mir::NodeKind::Int(n) => Ok(self.int32(n)),
            mir::NodeKind::Float(bits) => Ok(self.float(bits)),
            _ => Err(CodegenError::Unsupported),
        }
    }
}

/// A 32-bit signed integer, widened with its sign to 64 bits, is read back
/// from the low 32 of them.
pub proof fn lemma_widened_decodes(n: i32)
    ensures
        (Value::ConstInt { ty: Type::Int32, bits: widened(n) }).decoded_int() == Some(n as int),
{
}

/// A module with one more function is inconsistent where it was before, and
/// where the new function is.
pub proof fn lemma_with_function_faults(
    module: ModuleView,
    function: FunctionView,
    message: Message,
)
    ensures
        with_function(module, function).faulty(message) <==> module.faulty(message) || (
        message matches Message::Instr { at, .. } && at.func == module.functions.len()
            && with_function(module, function).faulty(message)),
{
}

/// The entry function of the trial run is well-formed: a module is as
/// consistent with it as without it.
pub proof fn lemma_trial_function_sound(module: ModuleView)
    requires
        module.functions.len() <= usize::MAX,
    ensures
        with_function(module, trial_function(module.functions.len() as usize)).consistent()
            <==> module.consistent(),
{
    let func = module.functions.len() as usize;
    let after = with_function(module, trial_function(func));
    let at = BlockRef { func, block: 0 };
    assert(after.instrs(at) == trial_function(func).blocks[0].instrs);
    assert forall|index: int| 0 <= index < 8 implies after.instr_ok(at, index) by {
        assert(after.instrs(at).len() == 8);
    }
    assert forall|message: Message| after.faulty(message) <==> module.faulty(message) by {
        lemma_with_function_faults(module, trial_function(func), message);
    }
}

/// Once code generation has failed, the names that follow change nothing.
pub proof fn lemma_emission_failure_is_final(start: ModuleView, program: ProgramView, count: nat)
    requires
        count <= program.names.len(),
        emit_prefix(start, program, count).error is Some,
    ensures
        emit_prefix(start, program, program.names.len()) == emit_prefix(start, program, count),
    decreases program.names.len() - count,
{
    if count < program.names.len() {
        lemma_emission_failure_is_final(start, program, count + 1);
    }
}

/// Literal fidelity for integers: an integer literal, lowered and compiled,
/// is a constant of the 32-bit integer type that stands for the same integer.
pub proof fn lemma_int_literal_fidelity(n: i32)
    ensures
        lower_node(typing::Node { kind: typing::NodeKind::Int(n) }) is Some,
        value_of(lower_node(typing::Node { kind: typing::NodeKind::Int(n) }).unwrap()) is Some,
        value_of(
            lower_node(typing::Node { kind: typing::NodeKind::Int(n) }).unwrap(),
        ).unwrap().decoded_int() == Some(n as int),
{
    lemma_widened_decodes(n);
}

/// Literal fidelity for floating-point numbers: a floating-point literal,
/// lowered and compiled, is a floating-point constant with the same bit
/// pattern.
pub proof fn lemma_float_literal_fidelity(bits: u64)
    ensures
        lower_node(typing::Node { kind: typing::NodeKind::Float(bits) }) is Some,
        value_of(lower_node(typing::Node { kind: typing::NodeKind::Float(bits) }).unwrap()) is Some,
        value_of(
            lower_node(typing::Node { kind: typing::NodeKind::Float(bits) }).unwrap(),
        ).unwrap().decoded_float() == Some(bits),
{
}

/// The kinds with a rule: lowering and code generation have a rule for the
/// three literal kinds and for no other, so whatever lowering lets through,
/// code generation compiles.
pub proof fn lemma_rules_agree(node: typing::Node)
    ensures
        lower_node(node) is Some <==> (node.kind is Unit || node.kind is Int || node.kind is Float),
        lower_node(node) is Some ==> value_of(lower_node(node).unwrap()) is Some,
{
}

/// Code generation has a rule for the three literal kinds and for no other.
pub proof fn lemma_codegen_rules(node: mir::Node)
    ensures
        value_of(node) is Some <==> (node.kind is Unit || node.kind is Int || node.kind is Float),
{
}

/// What a node compiles to is a constant of its type.
pub proof fn lemma_value_is_constant(node: mir::Node)
    requires
        value_of(node) is Some,
    ensures
        constant_kind(value_of(node).unwrap()) == Some(Kind::Plain(type_of(value_of(node).unwrap()))),
{
}

/// A function that returns a constant is well-formed exactly if the constant
/// has the type that the function returns: a module with such a function is
/// consistent exactly if it was before and the two agree.
pub proof fn lemma_constant_function_sound(
    module: ModuleView,
    name: Seq<char>,
    ret: Type,
    value: Value,
)
    requires
        module.functions.len() < usize::MAX,
        constant_kind(value) is Some,
    ensures
        with_function(module, constant_function(name, ret, value)).consistent() <==> (
        module.consistent() && constant_kind(value) == Some(Kind::Plain(ret))),
{
    let function = constant_function(name, ret, value);
    let after = with_function(module, function);
    let at = BlockRef { func: module.functions.len() as usize, block: 0 };
    assert(after.instrs(at) == function.blocks[0].instrs);
    assert(after.instrs(at).len() == 1);
    assert(after.has_block(at));
    assert(after.instr_ok(at, 0) <==> constant_kind(value) == Some(Kind::Plain(ret)));
    if module.consistent() && constant_kind(value) == Some(Kind::Plain(ret)) {
        assert forall|message: Message| !after.faulty(message) by {
            lemma_with_function_faults(module, function, message);
        }
    }
    if after.consistent() {
        assert(!after.faulty(Message::Instr { at, index: 0 }));
        assert forall|message: Message| !module.faulty(message) by {
            lemma_with_function_faults(module, function, message);
        }
    }
}

/// A module with one more global that starts from a constant is as
/// consistent as it was.
pub proof fn lemma_global_sound(module: ModuleView, name: Seq<char>, value: Value)
    requires
        module.globals.len() < usize::MAX,
        constant_kind(value) is Some,
    ensures
        module.add_global(name, value).consistent() <==> module.consistent(),
{
    let after = module.add_global(name, value);
    assert forall|message: Message| after.faulty(message) <==> module.faulty(message) by {
        match message {
            Message::Instr { at, index } => {
                assert(after.functions == module.functions);
            },
            Message::Global { index } => {
                if index < module.globals.len() {
                    assert(after.globals[index as int] == module.globals[index as int]);
                }
            },
        }
    }
}

/// Code generation for declarations keeps a module consistent: what it
/// emits for them is well-formed.
pub proof fn lemma_declarations_sound(start: ModuleView, program: ProgramView, count: nat)
    requires
        count <= program.names.len(),
        start.functions.len() + count < usize::MAX,
        start.globals.len() + count < usize::MAX,
    ensures
        emit_prefix(start, program, count).module.consistent() <==> start.consistent(),
        emit_prefix(start, program, count).module.functions.len() <= start.functions.len() + count,
        emit_prefix(start, program, count).module.globals.len() <= start.globals.len() + count,
    decreases count,
{
    if count > 0 {
        let shorter = (count - 1) as nat;
        lemma_declarations_sound(start, program, shorter);
        let before = emit_prefix(start, program, shorter);
        if before.error is None {
            let name = program.names[count - 1];
            match program.decls[name] {
                mir::Decl::Def(def) => {
                    if value_of(def.body) is Some {
                        let value = value_of(def.body).unwrap();
                        lemma_value_is_constant(def.body);
                        lemma_constant_function_sound(before.module, name, type_of(value), value);
                    }
                },
                mir::Decl::Let(binding) => {
                    if value_of(binding.value) is Some {
                        lemma_value_is_constant(binding.value);
                        lemma_global_sound(before.module, name, value_of(binding.value).unwrap());
                    }
                },
            }
        }
    }
}

/// When generated code is consistent: code generation into a consistent
/// module leaves a consistent module exactly if the entry point, where it was
/// emitted, returns a 32-bit integer. An entry point whose body is of another
/// type is emitted with a return that does not fit the function, and the
/// examination of the module finds it.
pub proof fn lemma_program_sound(start: ModuleView, program: ProgramView)
    requires
        start.consistent(),
        start.functions.len() + program.names.len() + 1 < usize::MAX,
        start.globals.len() + program.names.len() < usize::MAX,
    ensures
        emit_program(start, program).module.consistent() <==> (program.main is Some && value_of(
            program.main.unwrap().body,
        ) is Some ==> program.main.unwrap().body.kind is Int),
{
    let first = emit_main(start, program.main);
    if program.main is Some && value_of(program.main.unwrap().body) is Some {
        let value = value_of(program.main.unwrap().body).unwrap();
        lemma_value_is_constant(program.main.unwrap().body);
        lemma_constant_function_sound(start, "main"@, Type::Int32, value);
    }
    if first.error is None {
        lemma_declarations_sound(first.module, program, program.names.len());
    }
}

} // verus!
