use minivm::compiler::Compiler;
use minivm::dump::{
    block_string, decimal_string, function_string, global_string, instr_string, type_string,
    value_string,
};
use minivm::mir;
use minivm::native::{Block, BlockRef, Function, Global, Instr, Module, Type, Value};

#[test]
fn numbers_are_written_in_decimal() {
    assert_eq!(decimal_string(0), "0");
    assert_eq!(decimal_string(7), "7");
    assert_eq!(decimal_string(10), "10");
    assert_eq!(decimal_string(9989), "9989");
    assert_eq!(decimal_string(1234567890), "1234567890");
    assert_eq!(decimal_string(u64::MAX), "18446744073709551615");
}

#[test]
fn types_are_written_by_name() {
    assert_eq!(type_string(Type::Unit), "unit");
    assert_eq!(type_string(Type::Int32), "i32");
    assert_eq!(type_string(Type::Float), "f64");
}

#[test]
fn operands_are_written_by_what_they_stand_for() {
    let compiler = Compiler::new();
    assert_eq!(value_string(compiler.int32(-10000)), "i32 -10000");
    assert_eq!(value_string(compiler.int32(11)), "i32 11");
    assert_eq!(value_string(compiler.int32(0)), "i32 0");
    assert_eq!(value_string(compiler.int32(i32::MIN)), "i32 -2147483648");
    assert_eq!(value_string(compiler.int32(i32::MAX)), "i32 2147483647");
    assert_eq!(value_string(compiler.unit()), "unit 0");
    assert_eq!(value_string(compiler.float(11.0f64.to_bits())), "f64 bits 4622382067542392832");
    assert_eq!(value_string(Value::ConstInt { ty: Type::Float, bits: 5 }), "f64 5");
    let at = BlockRef { func: 0, block: 0 };
    assert_eq!(value_string(Value::Inst { at, index: 12 }), "%12");
}

#[test]
fn instructions_are_written_one_per_line() {
    let at = BlockRef { func: 0, block: 0 };
    let slot = Value::Inst { at, index: 0 };
    let five = Value::ConstInt { ty: Type::Int32, bits: 5 };
    assert_eq!(
        instr_string(0, &Instr::Alloca { ty: Type::Int32, name: "a".to_string() }),
        "  %0 = alloca i32 ; a\n"
    );
    assert_eq!(instr_string(1, &Instr::Store { value: five, slot }), "  store i32 5, %0\n");
    assert_eq!(
        instr_string(2, &Instr::Load { ty: Type::Int32, slot, name: "x".to_string() }),
        "  %2 = load i32, %0 ; x\n"
    );
    assert_eq!(
        instr_string(
            3,
            &Instr::Add { lhs: Value::Inst { at, index: 2 }, rhs: five, name: "sum".to_string() }
        ),
        "  %3 = add %2, i32 5 ; sum\n"
    );
    assert_eq!(
        instr_string(4, &Instr::Ret { value: Value::Inst { at, index: 3 } }),
        "  ret %3\n"
    );
}

#[test]
fn blocks_functions_and_globals_are_written_with_their_headers() {
    let unit = Value::ConstInt { ty: Type::Unit, bits: 0 };
    let block = Block { name: "entry".to_string(), instrs: vec![Instr::Ret { value: unit }] };
    assert_eq!(block_string(&block), "entry:\n  ret unit 0\n");
    let function = Function {
        name: "f".to_string(),
        ret: Type::Unit,
        params: vec![Type::Int32, Type::Float, Type::Unit],
        blocks: vec![block],
    };
    assert_eq!(function_string(&function), "fn f(i32, f64, unit) -> unit\nentry:\n  ret unit 0\n");
    let bare = Function { name: "g".to_string(), ret: Type::Float, params: vec![Type::Int32], blocks: vec![] };
    assert_eq!(function_string(&bare), "fn g(i32) -> f64\n");
    let global = Global { name: "x".to_string(), init: Value::ConstInt { ty: Type::Int32, bits: 3 } };
    assert_eq!(global_string(&global), "global x = i32 3\n");
}

#[test]
fn empty_module_is_listed_by_its_name() {
    assert_eq!(Module::new("m").dump(), "module m\n");
    assert_eq!(Compiler::new().dump_module(), "module main\n");
}

#[test]
fn trial_run_is_listed() {
    let mut compiler = Compiler::new();
    compiler.test_run().unwrap();
    let expected = "module main\n\
                    fn main() -> i32\n\
                    entry:\n\
                    \x20 %0 = alloca i32 ; a\n\
                    \x20 %1 = alloca i32 ; b\n\
                    \x20 store i32 -10000, %0\n\
                    \x20 store i32 11, %1\n\
                    \x20 %4 = load i32, %0 ; a\n\
                    \x20 %5 = load i32, %1 ; b\n\
                    \x20 %6 = add %4, %5 ; addtmp\n\
                    \x20 ret %6\n";
    assert_eq!(compiler.dump_module(), expected);
}

#[test]
fn compiled_program_is_listed_globals_first() {
    let mut program = mir::Program::new();
    program.define(
        "x".to_string(),
        mir::Decl::Let(Box::new(mir::Let {
            name: "x".to_string(),
            value: mir::Node { kind: mir::NodeKind::Int(-3) },
        })),
    );
    program.define(
        "f".to_string(),
        mir::Decl::Def(Box::new(mir::Def {
            name: Some("f".to_string()),
            body: mir::Node { kind: mir::NodeKind::Unit },
        })),
    );
    program
        .set_main(mir::Def { name: None, body: mir::Node { kind: mir::NodeKind::Int(42) } })
        .unwrap();
    let mut compiler = Compiler::new();
    compiler.compile_program(&program).unwrap();
    let expected = "module main\n\
                    global x = i32 -3\n\
                    fn main() -> i32\n\
                    entry:\n\
                    \x20 ret i32 42\n\
                    fn f() -> unit\n\
                    entry:\n\
                    \x20 ret unit 0\n";
    assert_eq!(compiler.dump_module(), expected);
}
