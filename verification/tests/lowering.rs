use minivm::error::{LoweringError, LoweringErrorKind};
use minivm::mir;
use minivm::transform::{typed_ast_to_mir, Transform};
use minivm::typing::{Decl, DeclKind, Def, Let, Module, Node, NodeKind};

fn node(kind: NodeKind) -> Node {
    Node { kind }
}

fn def(name: &str, kind: NodeKind, main: bool) -> (String, Decl) {
    let def = Def { name: name.to_string(), body: node(kind), main };
    (name.to_string(), Decl { kind: DeclKind::Def(Box::new(def)) })
}

fn binding(name: &str, kind: NodeKind) -> (String, Decl) {
    let binding = Let { name: name.to_string(), value: node(kind) };
    (name.to_string(), Decl { kind: DeclKind::Let(Box::new(binding)) })
}

fn names(program: &mir::Program) -> Vec<String> {
    program.entries().iter().map(|entry| entry.0.clone()).collect()
}

#[test]
fn unit_literal_lowers_to_unit_node() {
    let mut transform = Transform::new();
    assert_eq!(transform.node(node(NodeKind::Unit)), Ok(mir::Node { kind: mir::NodeKind::Unit }));
}

#[test]
fn integer_literal_keeps_its_value() {
    let mut transform = Transform::new();
    for n in [-10000, 0, 11, i32::MIN, i32::MAX] {
        assert_eq!(
            transform.node(node(NodeKind::Int(n))),
            Ok(mir::Node { kind: mir::NodeKind::Int(n) })
        );
    }
}

#[test]
fn float_literal_keeps_its_bits() {
    let mut transform = Transform::new();
    let lowered = transform.node(node(NodeKind::Float(11.0f64.to_bits()))).unwrap();
    match lowered.kind {
        mir::NodeKind::Float(bits) => assert_eq!(f64::from_bits(bits), 11.0),
        other => panic!("not a float node: {:?}", other),
    }
}

#[test]
fn kinds_without_a_rule_are_rejected() {
    let mut transform = Transform::new();
    assert_eq!(
        transform.node(node(NodeKind::Ident("x".to_string()))),
        Err(LoweringErrorKind::Unsupported)
    );
    let call = NodeKind::Call(Box::new(node(NodeKind::Ident("f".to_string()))), vec![node(NodeKind::Int(1))]);
    assert_eq!(transform.node(node(call)), Err(LoweringErrorKind::Unsupported));
    let branch = NodeKind::If(
        Box::new(node(NodeKind::Int(1))),
        Box::new(node(NodeKind::Int(2))),
        Box::new(node(NodeKind::Int(3))),
    );
    assert_eq!(transform.node(node(branch)), Err(LoweringErrorKind::Unsupported));
}

#[test]
fn definition_keeps_its_name_unless_it_is_the_entry_point() {
    let mut transform = Transform::new();
    let plain = Def { name: "f".to_string(), body: node(NodeKind::Int(3)), main: false };
    assert_eq!(
        transform.def(plain),
        Ok(mir::Def { name: Some("f".to_string()), body: mir::Node { kind: mir::NodeKind::Int(3) } })
    );
    let entry = Def { name: "main".to_string(), body: node(NodeKind::Int(3)), main: true };
    assert!(entry.is_main());
    assert_eq!(
        transform.def(entry),
        Ok(mir::Def { name: None, body: mir::Node { kind: mir::NodeKind::Int(3) } })
    );
}

#[test]
fn empty_module_lowers_to_empty_program() {
    let program = typed_ast_to_mir(Module::new()).unwrap();
    assert_eq!(program.len(), 0);
    assert!(program.main().is_none());
}

#[test]
fn names_round_trip() {
    let module = Module {
        decls: vec![
            binding("x", NodeKind::Int(1)),
            def("f", NodeKind::Unit, false),
            binding("y", NodeKind::Float(2.5f64.to_bits())),
        ],
    };
    let program = typed_ast_to_mir(module).unwrap();
    assert_eq!(names(&program), vec!["x", "f", "y"]);
    assert!(program.main().is_none());
    assert_eq!(
        program.get("x"),
        Some(&mir::Decl::Let(Box::new(mir::Let {
            name: "x".to_string(),
            value: mir::Node { kind: mir::NodeKind::Int(1) },
        })))
    );
    assert_eq!(
        program.get("f"),
        Some(&mir::Decl::Def(Box::new(mir::Def {
            name: Some("f".to_string()),
            body: mir::Node { kind: mir::NodeKind::Unit },
        })))
    );
    assert!(program.get("z").is_none());
}

#[test]
fn entry_point_stands_apart() {
    let module = Module {
        decls: vec![binding("x", NodeKind::Int(1)), def("main", NodeKind::Int(7), true)],
    };
    let program = typed_ast_to_mir(module).unwrap();
    assert_eq!(
        program.main(),
        Some(&mir::Def { name: None, body: mir::Node { kind: mir::NodeKind::Int(7) } })
    );
    assert!(program.get("main").is_none());
    assert_eq!(names(&program), vec!["x"]);
}

#[test]
fn second_entry_point_is_rejected() {
    let module = Module {
        decls: vec![
            def("main", NodeKind::Int(1), true),
            binding("x", NodeKind::Int(2)),
            def("start", NodeKind::Int(3), true),
        ],
    };
    assert_eq!(
        typed_ast_to_mir(module),
        Err(LoweringError { kind: LoweringErrorKind::DuplicateMain, decl: "start".to_string() })
    );
}

#[test]
fn unsupported_kind_is_reported_with_its_declaration() {
    let module = Module {
        decls: vec![
            binding("x", NodeKind::Int(2)),
            binding("y", NodeKind::Ident("x".to_string())),
            def("main", NodeKind::Ident("y".to_string()), true),
        ],
    };
    assert_eq!(
        typed_ast_to_mir(module),
        Err(LoweringError { kind: LoweringErrorKind::Unsupported, decl: "y".to_string() })
    );
}

#[test]
fn unsupported_entry_point_is_reported_before_a_duplicate() {
    let module = Module {
        decls: vec![
            def("main", NodeKind::Int(1), true),
            def("start", NodeKind::Ident("x".to_string()), true),
        ],
    };
    assert_eq!(
        typed_ast_to_mir(module),
        Err(LoweringError { kind: LoweringErrorKind::Unsupported, decl: "start".to_string() })
    );
}

#[test]
fn failed_declaration_leaves_the_program_as_it_was() {
    let mut transform = Transform::new();
    let (name, decl) = binding("x", NodeKind::Int(2));
    assert_eq!(transform.register_decl(name, decl), Ok(()));
    let (name, decl) = binding("y", NodeKind::Ident("x".to_string()));
    assert!(transform.register_decl(name, decl).is_err());
    let program = transform.into_program();
    assert_eq!(names(&program), vec!["x"]);
}

#[test]
fn module_pass_stops_at_the_first_failure() {
    let mut transform = Transform::new();
    let module = Module {
        decls: vec![
            binding("a", NodeKind::Int(1)),
            binding("b", NodeKind::Ident("a".to_string())),
            binding("c", NodeKind::Int(3)),
        ],
    };
    assert_eq!(
        transform.module(module),
        Err(LoweringError { kind: LoweringErrorKind::Unsupported, decl: "b".to_string() })
    );
    assert_eq!(names(&transform.into_program()), vec!["a"]);
}

#[test]
fn define_lets_the_last_write_win() {
    let mut program = mir::Program::new();
    let first = mir::Decl::Let(Box::new(mir::Let {
        name: "x".to_string(),
        value: mir::Node { kind: mir::NodeKind::Int(1) },
    }));
    let other = mir::Decl::Let(Box::new(mir::Let {
        name: "y".to_string(),
        value: mir::Node { kind: mir::NodeKind::Int(2) },
    }));
    let second = mir::Decl::Let(Box::new(mir::Let {
        name: "x".to_string(),
        value: mir::Node { kind: mir::NodeKind::Int(3) },
    }));
    program.define("x".to_string(), first);
    program.define("y".to_string(), other);
    program.define("x".to_string(), second);
    assert_eq!(program.len(), 2);
    assert_eq!(names(&program), vec!["x", "y"]);
    match program.get("x") {
        Some(mir::Decl::Let(binding)) => assert_eq!(binding.value.kind, mir::NodeKind::Int(3)),
        other => panic!("not a binding: {:?}", other),
    }
}

#[test]
fn set_main_twice_fails() {
    let mut program = mir::Program::new();
    let first = mir::Def { name: None, body: mir::Node { kind: mir::NodeKind::Int(1) } };
    let second = mir::Def { name: None, body: mir::Node { kind: mir::NodeKind::Int(2) } };
    assert_eq!(program.set_main(first), Ok(()));
    assert_eq!(program.set_main(second), Err(LoweringErrorKind::DuplicateMain));
    assert_eq!(program.main().unwrap().body.kind, mir::NodeKind::Int(1));
}
