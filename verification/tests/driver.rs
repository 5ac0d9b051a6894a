use minivm::consistency::Message;
use minivm::driver::{compile, Driver, Stage, State};
use minivm::error::{CodegenError, CompileError, LoweringError, LoweringErrorKind};
use minivm::native::{BlockRef, Type};
use minivm::typing::{Decl, DeclKind, Def, Let, Module, Node, NodeKind};

fn entry(kind: NodeKind) -> (String, Decl) {
    let def = Def { name: "main".to_string(), body: Node { kind }, main: true };
    ("main".to_string(), Decl { kind: DeclKind::Def(Box::new(def)) })
}

fn binding(name: &str, kind: NodeKind) -> (String, Decl) {
    let binding = Let { name: name.to_string(), value: Node { kind } };
    (name.to_string(), Decl { kind: DeclKind::Let(Box::new(binding)) })
}

#[test]
fn compilation_runs_through_its_stages_in_order() {
    let mut driver = Driver::new();
    assert_eq!(driver.state(), State::Created);
    assert_eq!(driver.next_stage(), Some(Stage::InitBackend));
    driver.backend_initialized();
    assert_eq!(driver.state(), State::BackendReady);
    assert_eq!(driver.next_stage(), Some(Stage::Build));
    let module = Module { decls: vec![entry(NodeKind::Int(0)), binding("x", NodeKind::Int(1))] };
    let built = driver.build(module).unwrap();
    assert_eq!(built.functions.len(), 1);
    assert_eq!(built.globals.len(), 1);
    assert_eq!(driver.state(), State::ModuleBuilt);
    assert_eq!(driver.next_stage(), Some(Stage::Verify));
    driver.verified(Ok(()));
    assert_eq!(driver.state(), State::Verified);
    assert_eq!(driver.next_stage(), Some(Stage::EmitObject));
    driver.object_emitted(Ok(()));
    assert_eq!(driver.state(), State::ObjectEmitted);
    assert_eq!(driver.next_stage(), Some(Stage::Link));
    driver.linked(Ok(()));
    assert_eq!(driver.state(), State::Linked);
    assert_eq!(driver.next_stage(), None);
    assert!(driver.failure().is_none());
}

#[test]
fn backend_initialization_is_idempotent() {
    let mut once = Driver::new();
    once.backend_initialized();
    let mut often = Driver::new();
    for _ in 0..5 {
        often.backend_initialized();
    }
    assert_eq!(once.state(), State::BackendReady);
    assert_eq!(often.state(), once.state());
    assert!(often.failure().is_none());
}

#[test]
fn failed_verification_halts_the_pipeline() {
    let mut driver = Driver::new();
    driver.backend_initialized();
    let module = Module { decls: vec![entry(NodeKind::Float(1.0f64.to_bits()))] };
    let built = driver.build(module).unwrap();
    let answer = built.verify();
    assert_eq!(answer, Err(Message::Instr { at: BlockRef { func: 0, block: 0 }, index: 0 }));
    assert_eq!(built.functions[0].ret, Type::Int32);
    driver.verified(answer.map_err(|message| format!("{:?}", message)));
    assert_eq!(driver.state(), State::Failed);
    assert_eq!(driver.next_stage(), None);
    assert!(matches!(driver.failure(), Some(CompileError::Verification(_))));
    driver.object_emitted(Ok(()));
    driver.linked(Ok(()));
    assert_eq!(driver.state(), State::Failed);
    assert!(matches!(driver.failure(), Some(CompileError::Verification(_))));
}

#[test]
fn lowering_failure_fails_the_build() {
    let mut driver = Driver::new();
    driver.backend_initialized();
    let module = Module { decls: vec![entry(NodeKind::Int(0)), entry(NodeKind::Int(1))] };
    assert!(driver.build(module).is_none());
    assert_eq!(driver.state(), State::Failed);
    assert_eq!(
        driver.failure(),
        Some(&CompileError::Lowering(LoweringError {
            kind: LoweringErrorKind::DuplicateMain,
            decl: "main".to_string(),
        }))
    );
}

#[test]
fn build_waits_for_the_backend() {
    let mut driver = Driver::new();
    let module = Module { decls: vec![entry(NodeKind::Int(0))] };
    assert!(driver.build(module).is_none());
    assert_eq!(driver.state(), State::Created);
    assert!(driver.failure().is_none());
}

#[test]
fn news_of_a_stage_that_is_not_pending_changes_nothing() {
    let mut driver = Driver::new();
    driver.verified(Err("early".to_string()));
    driver.object_emitted(Ok(()));
    driver.linked(Err("early".to_string()));
    assert_eq!(driver.state(), State::Created);
    assert!(driver.failure().is_none());
}

#[test]
fn object_emission_failure_is_kept_in_kind() {
    let mut driver = Driver::new();
    driver.backend_initialized();
    driver.build(Module { decls: vec![entry(NodeKind::Int(0))] }).unwrap();
    driver.verified(Ok(()));
    driver.object_emitted(Err("disk full".to_string()));
    assert_eq!(driver.state(), State::Failed);
    assert_eq!(driver.failure(), Some(&CompileError::ObjectEmission("disk full".to_string())));
    driver.linked(Ok(()));
    assert_eq!(driver.state(), State::Failed);
}

#[test]
fn link_failure_is_kept_in_kind() {
    let mut driver = Driver::new();
    driver.backend_initialized();
    driver.build(Module { decls: vec![entry(NodeKind::Int(0))] }).unwrap();
    driver.verified(Ok(()));
    driver.object_emitted(Ok(()));
    driver.linked(Err("exit status 1".to_string()));
    assert_eq!(driver.state(), State::Failed);
    assert_eq!(driver.failure(), Some(&CompileError::Link("exit status 1".to_string())));
}

#[test]
fn compile_lowers_then_generates_code() {
    let module = Module { decls: vec![binding("x", NodeKind::Int(7)), entry(NodeKind::Int(3))] };
    let emitted = compile(module).unwrap();
    assert_eq!(emitted.name, "main");
    assert_eq!(emitted.functions.len(), 1);
    assert_eq!(emitted.functions[0].name, "main");
    assert_eq!(emitted.globals.len(), 1);
    assert_eq!(emitted.globals[0].name, "x");
    assert_eq!(emitted.verify(), Ok(()));
}

#[test]
fn compile_reports_the_stage_that_failed() {
    let module = Module { decls: vec![binding("x", NodeKind::Ident("y".to_string()))] };
    assert_eq!(
        compile(module),
        Err(CompileError::Lowering(LoweringError {
            kind: LoweringErrorKind::Unsupported,
            decl: "x".to_string(),
        }))
    );
    assert_ne!(
        CompileError::Codegen(CodegenError::Unsupported),
        CompileError::Verification(String::new())
    );
}

#[test]
fn states_name_their_pending_stage() {
    assert_eq!(State::Created.next_stage(), Some(Stage::InitBackend));
    assert_eq!(State::BackendReady.next_stage(), Some(Stage::Build));
    assert_eq!(State::ModuleBuilt.next_stage(), Some(Stage::Verify));
    assert_eq!(State::Verified.next_stage(), Some(Stage::EmitObject));
    assert_eq!(State::ObjectEmitted.next_stage(), Some(Stage::Link));
    assert_eq!(State::Linked.next_stage(), None);
    assert_eq!(State::Failed.next_stage(), None);
}
