use minivm::compiler::Compiler;
use minivm::consistency::{kind_of_constant, Kind, Message};
use minivm::error::CodegenError;
use minivm::mir;
use minivm::native::{BlockRef, Builder, Instr, Module, Type, Value};
use minivm::transform::Transform;
use minivm::typing;

fn decoded(value: Value) -> i32 {
    match value {
        Value::ConstInt { ty: Type::Int32, bits } => bits as u32 as i32,
        other => panic!("not a 32-bit integer constant: {:?}", other),
    }
}

/// Runs the one block of the function at place `func` and gives what it returns.
fn run(module: &Module, func: usize) -> i32 {
    let instrs = &module.functions[func].blocks[0].instrs;
    let mut slots: Vec<Option<i32>> = vec![None; instrs.len()];
    let mut left: Vec<Option<i32>> = vec![None; instrs.len()];
    let read = |value: &Value, left: &Vec<Option<i32>>| -> i32 {
        match value {
            Value::ConstInt { .. } => decoded(*value),
            Value::Inst { index, .. } => left[*index].unwrap(),
            other => panic!("no integer: {:?}", other),
        }
    };
    let place = |value: &Value| -> usize {
        match value {
            Value::Inst { index, .. } => *index,
            other => panic!("no address: {:?}", other),
        }
    };
    for (index, instr) in instrs.iter().enumerate() {
        match instr {
            Instr::Alloca { .. } => {}
            Instr::Store { value, slot } => slots[place(slot)] = Some(read(value, &left)),
            Instr::Load { slot, .. } => left[index] = slots[place(slot)],
            Instr::Add { lhs, rhs, .. } => {
                left[index] = Some(read(lhs, &left).wrapping_add(read(rhs, &left)))
            }
            Instr::Ret { value } => return read(value, &left),
        }
    }
    panic!("the block does not return");
}

#[test]
fn fresh_compiler_has_an_empty_module_called_main() {
    let compiler = Compiler::new();
    let module = compiler.module();
    assert_eq!(module.name, "main");
    assert!(module.functions.is_empty());
    assert!(module.globals.is_empty());
    assert_eq!(module.verify(), Ok(()));
}

#[test]
fn unit_is_the_zero_of_the_empty_type() {
    assert_eq!(Compiler::new().unit(), Value::ConstInt { ty: Type::Unit, bits: 0 });
}

#[test]
fn integer_constant_is_widened_with_its_sign() {
    let compiler = Compiler::new();
    assert_eq!(
        compiler.int32(-10000),
        Value::ConstInt { ty: Type::Int32, bits: 0xFFFF_FFFF_FFFF_D8F0 }
    );
    assert_eq!(compiler.int32(11), Value::ConstInt { ty: Type::Int32, bits: 11 });
    assert_eq!(compiler.int32(-1), Value::ConstInt { ty: Type::Int32, bits: u64::MAX });
    assert_eq!(
        compiler.int32(i32::MIN),
        Value::ConstInt { ty: Type::Int32, bits: 0xFFFF_FFFF_8000_0000 }
    );
    assert_eq!(compiler.int32(i32::MAX), Value::ConstInt { ty: Type::Int32, bits: 0x7FFF_FFFF });
}

#[test]
fn integer_literal_is_decoded_to_itself() {
    let mut transform = Transform::new();
    let mut compiler = Compiler::new();
    for n in [-10000, -1, 0, 1, 11, i32::MIN, i32::MAX] {
        let lowered = transform.node(typing::Node { kind: typing::NodeKind::Int(n) }).unwrap();
        let value = compiler.compile_node(&lowered).unwrap();
        assert_eq!(decoded(value), n);
    }
}

#[test]
fn float_literal_is_decoded_to_itself() {
    let mut transform = Transform::new();
    let mut compiler = Compiler::new();
    let typed = typing::Node { kind: typing::NodeKind::Float(11.0f64.to_bits()) };
    let lowered = transform.node(typed).unwrap();
    match compiler.compile_node(&lowered).unwrap() {
        Value::ConstFloat { bits } => assert_eq!(f64::from_bits(bits), 11.0),
        other => panic!("not a float constant: {:?}", other),
    }
    assert_eq!(compiler.float(2.5f64.to_bits()), Value::ConstFloat { bits: 2.5f64.to_bits() });
}

#[test]
fn unit_node_compiles_to_unit() {
    let mut compiler = Compiler::new();
    let value = compiler.compile_node(&mir::Node { kind: mir::NodeKind::Unit });
    assert_eq!(value, Ok(Value::ConstInt { ty: Type::Unit, bits: 0 }));
}

#[test]
fn kinds_without_a_codegen_rule_are_rejected() {
    let mut compiler = Compiler::new();
    let ident = mir::Node { kind: mir::NodeKind::Ident("x".to_string()) };
    assert_eq!(compiler.compile_node(&ident), Err(CodegenError::Unsupported));
    let call = mir::Node {
        kind: mir::NodeKind::Call(
            Box::new(mir::Node { kind: mir::NodeKind::Ident("f".to_string()) }),
            vec![],
        ),
    };
    assert_eq!(compiler.compile_node(&call), Err(CodegenError::Unsupported));
    let branch = mir::Node {
        kind: mir::NodeKind::If(
            Box::new(mir::Node { kind: mir::NodeKind::Int(1) }),
            Box::new(mir::Node { kind: mir::NodeKind::Int(2) }),
            Box::new(mir::Node { kind: mir::NodeKind::Int(3) }),
        ),
    };
    assert_eq!(compiler.compile_node(&branch), Err(CodegenError::Unsupported));
    assert!(compiler.module().functions.is_empty());
}

#[test]
fn trial_run_emits_a_verified_entry_function() {
    let mut compiler = Compiler::new();
    assert_eq!(compiler.test_run(), Ok(()));
    let module = compiler.module();
    assert_eq!(module.functions.len(), 1);
    let function = &module.functions[0];
    assert_eq!(function.name, "main");
    assert_eq!(function.ret, Type::Int32);
    assert!(function.params.is_empty());
    assert_eq!(function.blocks.len(), 1);
    assert_eq!(function.blocks[0].name, "entry");
    let at = BlockRef { func: 0, block: 0 };
    let int32 = Type::Int32;
    let expected = vec![
        Instr::Alloca { ty: int32, name: "a".to_string() },
        Instr::Alloca { ty: int32, name: "b".to_string() },
        Instr::Store {
            value: Value::ConstInt { ty: int32, bits: (-10000i64) as u64 },
            slot: Value::Inst { at, index: 0 },
        },
        Instr::Store {
            value: Value::ConstInt { ty: int32, bits: 11 },
            slot: Value::Inst { at, index: 1 },
        },
        Instr::Load { ty: int32, slot: Value::Inst { at, index: 0 }, name: "a".to_string() },
        Instr::Load { ty: int32, slot: Value::Inst { at, index: 1 }, name: "b".to_string() },
        Instr::Add {
            lhs: Value::Inst { at, index: 4 },
            rhs: Value::Inst { at, index: 5 },
            name: "addtmp".to_string(),
        },
        Instr::Ret { value: Value::Inst { at, index: 6 } },
    ];
    assert_eq!(function.blocks[0].instrs, expected);
}

#[test]
fn trial_run_entry_function_returns_the_sum() {
    let mut compiler = Compiler::new();
    assert_eq!(compiler.test_run(), Ok(()));
    assert_eq!(run(compiler.module(), 0), -9989);
}

#[test]
fn trial_run_twice_adds_two_functions() {
    let mut compiler = Compiler::new();
    assert_eq!(compiler.test_run(), Ok(()));
    assert_eq!(compiler.test_run(), Ok(()));
    assert_eq!(compiler.module().functions.len(), 2);
    assert_eq!(run(compiler.module(), 1), -9989);
}

fn program_of(decls: Vec<(&str, mir::Decl)>, main: Option<mir::NodeKind>) -> mir::Program {
    let mut program = mir::Program::new();
    for (name, decl) in decls {
        program.define(name.to_string(), decl);
    }
    if let Some(kind) = main {
        program.set_main(mir::Def { name: None, body: mir::Node { kind } }).unwrap();
    }
    program
}

fn def_of(name: &str, kind: mir::NodeKind) -> mir::Decl {
    mir::Decl::Def(Box::new(mir::Def { name: Some(name.to_string()), body: mir::Node { kind } }))
}

fn let_of(name: &str, kind: mir::NodeKind) -> mir::Decl {
    mir::Decl::Let(Box::new(mir::Let { name: name.to_string(), value: mir::Node { kind } }))
}

#[test]
fn program_compiles_entry_point_first_then_declarations_in_order() {
    let program = program_of(
        vec![
            ("x", let_of("x", mir::NodeKind::Int(-3))),
            ("f", def_of("f", mir::NodeKind::Float(1.5f64.to_bits()))),
            ("u", def_of("u", mir::NodeKind::Unit)),
        ],
        Some(mir::NodeKind::Int(42)),
    );
    let mut compiler = Compiler::new();
    assert_eq!(compiler.compile_program(&program), Ok(()));
    let module = compiler.into_module();
    let function_names: Vec<&str> = module.functions.iter().map(|f| f.name.as_str()).collect();
    assert_eq!(function_names, vec!["main", "f", "u"]);
    assert_eq!(module.functions[0].ret, Type::Int32);
    assert!(module.functions[0].params.is_empty());
    assert_eq!(
        module.functions[0].blocks[0].instrs,
        vec![Instr::Ret { value: Value::ConstInt { ty: Type::Int32, bits: 42 } }]
    );
    assert_eq!(module.functions[1].ret, Type::Float);
    assert_eq!(
        module.functions[1].blocks[0].instrs,
        vec![Instr::Ret { value: Value::ConstFloat { bits: 1.5f64.to_bits() } }]
    );
    assert_eq!(module.functions[2].ret, Type::Unit);
    assert_eq!(module.globals.len(), 1);
    assert_eq!(module.globals[0].name, "x");
    assert_eq!(decoded(module.globals[0].init), -3);
    assert_eq!(module.verify(), Ok(()));
    assert_eq!(run(&module, 0), 42);
}

#[test]
fn program_without_entry_point_has_no_main_function() {
    let program = program_of(vec![("x", let_of("x", mir::NodeKind::Int(1)))], None);
    let mut compiler = Compiler::new();
    assert_eq!(compiler.compile_program(&program), Ok(()));
    assert!(compiler.module().functions.is_empty());
    assert_eq!(compiler.module().globals.len(), 1);
}

#[test]
fn program_with_unsupported_node_stops_code_generation() {
    let program = program_of(
        vec![
            ("x", let_of("x", mir::NodeKind::Int(1))),
            ("y", let_of("y", mir::NodeKind::Ident("x".to_string()))),
            ("z", let_of("z", mir::NodeKind::Int(3))),
        ],
        Some(mir::NodeKind::Int(0)),
    );
    let mut compiler = Compiler::new();
    assert_eq!(compiler.compile_program(&program), Err(CodegenError::Unsupported));
    assert_eq!(compiler.module().functions.len(), 1);
    assert_eq!(compiler.module().globals.len(), 1);
}

#[test]
fn declaration_with_unsupported_node_leaves_the_module_as_it_was() {
    let mut compiler = Compiler::new();
    let decl = def_of("f", mir::NodeKind::Ident("x".to_string()));
    assert_eq!(compiler.compile_decl("f", &decl), Err(CodegenError::Unsupported));
    assert!(compiler.module().functions.is_empty());
}

#[test]
fn entry_point_that_returns_no_integer_is_inconsistent() {
    let program = program_of(vec![], Some(mir::NodeKind::Float(1.0f64.to_bits())));
    let mut compiler = Compiler::new();
    assert_eq!(compiler.compile_program(&program), Ok(()));
    assert_eq!(
        compiler.module().verify(),
        Err(Message::Instr { at: BlockRef { func: 0, block: 0 }, index: 0 })
    );
}

#[test]
fn verify_finds_the_first_fault() {
    let mut module = Module::new("m");
    let good = module.add_function("good", Type::Int32, vec![]);
    let entry = module.append_basic_block(good, "entry");
    let mut builder = Builder::new();
    builder.position_at_end(entry);
    let slot = builder.alloca(&mut module, Type::Int32, "s");
    builder.store(&mut module, Value::ConstInt { ty: Type::Int32, bits: 5 }, slot);
    let loaded = builder.load(&mut module, Type::Int32, slot, "l");
    builder.ret(&mut module, loaded);
    assert_eq!(module.verify(), Ok(()));

    let bad = module.add_function("bad", Type::Int32, vec![]);
    let entry = module.append_basic_block(bad, "entry");
    builder.position_at_end(entry);
    let sum = builder.add(
        &mut module,
        Value::ConstInt { ty: Type::Int32, bits: 1 },
        Value::ConstFloat { bits: 0 },
        "sum",
    );
    builder.ret(&mut module, sum);
    module.add_global("g", sum);
    assert_eq!(module.verify(), Err(Message::Instr { at: entry, index: 0 }));
}

#[test]
fn verify_rejects_blocks_without_their_one_return() {
    let mut module = Module::new("m");
    let func = module.add_function("f", Type::Unit, vec![]);
    let entry = module.append_basic_block(func, "entry");
    assert_eq!(module.verify(), Err(Message::Instr { at: entry, index: 0 }));
    let unit = Value::ConstInt { ty: Type::Unit, bits: 0 };
    let mut builder = Builder::new();
    builder.position_at_end(entry);
    builder.ret(&mut module, unit);
    assert_eq!(module.verify(), Ok(()));
    builder.ret(&mut module, unit);
    assert_eq!(module.verify(), Err(Message::Instr { at: entry, index: 0 }));
}

#[test]
fn verify_rejects_operands_that_are_not_defined_before_their_use() {
    let mut module = Module::new("m");
    let func = module.add_function("f", Type::Int32, vec![]);
    let entry = module.append_basic_block(func, "entry");
    let mut builder = Builder::new();
    builder.position_at_end(entry);
    let later = Value::Inst { at: entry, index: 1 };
    builder.load(&mut module, Type::Int32, later, "l");
    builder.alloca(&mut module, Type::Int32, "s");
    builder.ret(&mut module, Value::ConstInt { ty: Type::Int32, bits: 0 });
    assert_eq!(module.verify(), Err(Message::Instr { at: entry, index: 0 }));
}

#[test]
fn verify_rejects_globals_that_start_from_no_constant() {
    let mut module = Module::new("m");
    module.add_global("fine", Value::ConstInt { ty: Type::Int32, bits: 1 });
    module.add_global("odd", Value::ConstInt { ty: Type::Float, bits: 1 });
    assert_eq!(module.verify(), Err(Message::Global { index: 1 }));
}

#[test]
fn constants_have_their_kinds() {
    assert_eq!(
        kind_of_constant(Value::ConstInt { ty: Type::Int32, bits: 1 }),
        Some(Kind::Plain(Type::Int32))
    );
    assert_eq!(
        kind_of_constant(Value::ConstInt { ty: Type::Unit, bits: 0 }),
        Some(Kind::Plain(Type::Unit))
    );
    assert_eq!(kind_of_constant(Value::ConstFloat { bits: 0 }), Some(Kind::Plain(Type::Float)));
    assert_eq!(kind_of_constant(Value::ConstInt { ty: Type::Float, bits: 0 }), None);
    let at = BlockRef { func: 0, block: 0 };
    assert_eq!(kind_of_constant(Value::Inst { at, index: 0 }), None);
}
