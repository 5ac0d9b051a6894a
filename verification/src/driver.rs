//! The compiler driver: the stages of one compilation and their order.
//!
//! The driver decides; it does no outside work itself. Its caller initializes
//! the backend, has the module verified, the object code emitted and the
//! executable linked, and tells the driver how each of these ended.

use vstd::prelude::*;
use crate::compiler::{emit_main, emit_prefix, emit_program, value_of, Compiler};
use crate::error::CompileError;
use crate::mir;
use crate::mir::ProgramView;
use crate::native;
use crate::native::ModuleView;
use crate::transform::{lemma_lowering_keeps_wf, lower_all, lower_prefix, typed_ast_to_mir};
use crate::typing;

verus! {

/// Where a compilation stands.
#[derive(Clone, Copy, Debug, PartialEq, Eq, Structural)]
pub enum State {
    Created,
    BackendReady,
    ModuleBuilt,
    Verified,
    ObjectEmitted,
    /// The executable is there: the compilation is over.
    Linked,
    /// A stage has failed: the compilation is over, and nothing follows.
    Failed,
}

/// The stages of a compilation, in their order.
#[derive(Clone, Copy, Debug, PartialEq, Eq, Structural)]
pub enum Stage {
    /// The backend is initialized.
    InitBackend,
    /// The module is lowered and code is generated for it.
    Build,
    /// The backend examines the emitted module.
    Verify,
    /// The backend turns the module into object code, which is written out.
    EmitObject,
    /// The linker makes the executable from the object code.
    Link,
}

impl State {
    /// The one stage that can run in this state; none once the compilation
    /// is over.
    pub open spec fn pending(self) -> Option<Stage> {
        match self {
            State::Created => Some(Stage::InitBackend),
            State::BackendReady => Some(Stage::Build),
            State::ModuleBuilt => Some(Stage::Verify),
            State::Verified => Some(Stage::EmitObject),
            State::ObjectEmitted => Some(Stage::Link),
            State::Linked => None,
            State::Failed => None,
        }
    }

    /// The state that follows this one when its pending stage succeeds.
    pub open spec fn successor(self) -> State {
        match self {
            State::Created => State::BackendReady,
            State::BackendReady => State::ModuleBuilt,
            State::ModuleBuilt => State::Verified,
            State::Verified => State::ObjectEmitted,
            State::ObjectEmitted => State::Linked,
            State::Linked => State::Linked,
            State::Failed => State::Failed,
        }
    }

    /// The state after the news that `stage` has ended, well or not. News of
    /// the pending stage moves the compilation on, or fails it; any other
    /// news changes nothing.
    pub open spec fn after(self, stage: Stage, succeeded: bool) -> State {
        if self.pending() == Some(stage) {
            if succeeded {
                self.successor()
            } else {
                State::Failed
            }
        } else {
            self
        }
    }

    /// The stage to run next, if the compilation is not over.
    pub fn next_stage(self) -> (stage: Option<Stage>)
        ensures
            stage == self.pending(),
    {
        match self {
            State::Created => Some(Stage::InitBackend),
            State::BackendReady => Some(Stage::Build),
            State::ModuleBuilt => Some(Stage::Verify),
            State::Verified => Some(Stage::EmitObject),
            State::ObjectEmitted => Some(Stage::Link),
            State::Linked => None,
            State::Failed => None,
        }
    }
}

/// What lowering and code generation make of the declarations `decls`: the
/// native module, called `main`, or the failure of the first of the two that
/// fails.
pub open spec fn compiled(decls: Seq<(String, typing::Decl)>) -> Result<ModuleView, CompileError> {
    let lowered = lower_all(ProgramView::empty(), decls);
    let fresh = ModuleView { name: "main"@, functions: Seq::empty(), globals: Seq::empty() };
    match lowered.error {
        Some(error) => Err(CompileError::Lowering(error)),
        None => match emit_program(fresh, lowered.program).error {
            Some(error) => Err(CompileError::Codegen(error)),
            None => Ok(emit_program(fresh, lowered.program).module),
        },
    }
}

/// Lowers a type-checked module and generates code for it, into a fresh
/// native module.
pub fn compile(module: typing::Module) -> (res: Result<native::Module, CompileError>)
    ensures
        match compiled(module.decls@) {
            Ok(emitted) => res is Ok && res.unwrap()@ == emitted,
            Err(error) => res == Err::<native::Module, CompileError>(error),
        },
{
    let program = match typed_ast_to_mir(module) {
        Ok(program) => program,
        Err(error) => {
            return Err(CompileError::Lowering(error));
        },
    };
    let mut compiler = Compiler::new();
    match compiler.compile_program(&program) {
        Ok(_) => Ok(compiler.into_module()),
        Err(error) => Err(CompileError::Codegen(error)),
    }
}

/// The driver of one compilation.
#[derive(Debug)]
pub struct Driver {
    state: State,
    failure: Option<CompileError>,
}

impl Driver {
    /// Where the compilation stands.
    pub closed spec fn spec_state(&self) -> State {
        self.state
    }

    /// The failure that ended the compilation, if one did.
    pub closed spec fn spec_failure(&self) -> Option<CompileError> {
        self.failure
    }

    /// A compilation fails with a failure, and only so.
    #[verifier::type_invariant]
    pub closed spec fn inv(&self) -> bool {
        self.state == State::Failed <==> self.failure is Some
    }

    /// A compilation at its start.
    pub fn new() -> (driver: Driver)
        ensures
            driver.spec_state() == State::Created,
            driver.spec_failure() is None,
    {
        Driver { state: State::Created, failure: None }
    }

    /// Where the compilation stands.
    #[verifier::when_used_as_spec(spec_state)]
    pub fn state(&self) -> (state: State)
        ensures
            state == self.spec_state(),
            state == State::Failed <==> self.spec_failure() is Some,
    {
        proof {
            use_type_invariant(self);
        }
        self.state
    }

    /// The failure that ended the compilation, if one did.
    pub fn failure(&self) -> (failure: Option<&CompileError>)
        ensures
            failure is Some <==> self.spec_failure() is Some,
            failure is Some ==> *failure.unwrap() == self.spec_failure().unwrap(),
    {
        self.failure.as_ref()
    }

    /// The stage to run next, if the compilation is not over.
    pub fn next_stage(&self) -> (stage: Option<Stage>)
        ensures
            stage == self.spec_state().pending(),
    {
        self.state.next_stage()
    }

    /// Takes the news that the backend is initialized. It is news to a
    /// compilation at its start only: told again, it changes nothing.
    pub fn backend_initialized(&mut self)
        ensures
            final(self).spec_state() == old(self).spec_state().after(Stage::InitBackend, true),
            final(self).spec_failure() == old(self).spec_failure(),
    {
        proof {
            use_type_invariant(&*self);
        }
        if self.state == State::Created {
            self.state = State::BackendReady;
        }
    }

    /// Runs the build stage, where it is pending: lowers `module` and
    /// generates code for it. The emitted module is returned for the stages
    /// that follow; a failure of lowering or of code generation fails the
    /// compilation. Where another stage is pending, or none, nothing happens.
    pub fn build(&mut self, module: typing::Module) -> (built: Option<native::Module>)
        ensures
            old(self).spec_state() != State::BackendReady ==> {
                &&& built is None
                &&& final(self).spec_state() == old(self).spec_state()
                &&& final(self).spec_failure() == old(self).spec_failure()
            },
            old(self).spec_state() == State::BackendReady ==> match compiled(module.decls@) {
                Ok(emitted) => {
                    &&& built is Some
                    &&& built.unwrap()@ == emitted
                    &&& final(self).spec_state() == State::ModuleBuilt
                    &&& final(self).spec_failure() is None
                },
                Err(error) => {
                    &&& built is None
                    &&& final(self).spec_state() == State::Failed
                    &&& final(self).spec_failure() == Some(error)
                },
            },
            final(self).spec_state() == old(self).spec_state().after(Stage::Build, built is Some),
    {
        proof {
            use_type_invariant(&*self);
        }
        if self.state != State::BackendReady {
            return None;
        }
        match compile(module) {
            Ok(emitted) => {
                self.state = State::ModuleBuilt;
                Some(emitted)
            },
            Err(error) => {
                *self = Driver { state: State::Failed, failure: Some(error) };
                None
            },
        }
    }

    /// Takes the news of how the stage `stage` ended: well, or with a
    /// failure.
    fn report(&mut self, stage: Stage, outcome: Result<(), CompileError>)
        ensures
            final(self).spec_state() == old(self).spec_state().after(stage, outcome is Ok),
            final(self).spec_failure() == if old(self).spec_state().pending() == Some(stage)
                && outcome is Err {
                Some(outcome->Err_0)
            } else {
                old(self).spec_failure()
            },
    {
        proof {
            use_type_invariant(&*self);
        }
        let pending = match self.state.next_stage() {
            Some(pending) => pending == stage,
            None => false,
        };
        if pending {
            match outcome {
                Ok(_) => {
                    let next = match self.state {
                        State::Created => State::BackendReady,
                        State::BackendReady => State::ModuleBuilt,
                        State::ModuleBuilt => State::Verified,
                        State::Verified => State::ObjectEmitted,
                        _ => State::Linked,
                    };
                    self.state = next;
                },
                Err(error) => {
                    *self = Driver { state: State::Failed, failure: Some(error) };
                },
            }
        }
    }

    /// Takes the backend's answer on the emitted module. A module that the
    /// backend rejects fails the compilation.
    pub fn verified(&mut self, outcome: Result<(), String>)
        ensures
            final(self).spec_state() == old(self).spec_state().after(Stage::Verify, outcome is Ok),
            final(self).spec_failure() == if old(self).spec_state() == State::ModuleBuilt
                && outcome is Err {
                Some(CompileError::Verification(outcome->Err_0))
            } else {
                old(self).spec_failure()
            },
    {
        let outcome = match outcome {
            Ok(_) => Ok(()),
            Err(message) => Err(CompileError::Verification(message)),
        };
        self.report(Stage::Verify, outcome)
    }

    /// Takes the news of how the emission of the object code ended.
    pub fn object_emitted(&mut self, outcome: Result<(), String>)
        ensures
            final(self).spec_state() == old(self).spec_state().after(
                Stage::EmitObject,
                outcome is Ok,
            ),
            final(self).spec_failure() == if old(self).spec_state() == State::Verified
                && outcome is Err {
                Some(CompileError::ObjectEmission(outcome->Err_0))
            } else {
                old(self).spec_failure()
            },
    {
        let outcome = match outcome {
            Ok(_) => Ok(()),
            Err(message) => Err(CompileError::ObjectEmission(message)),
        };
        self.report(Stage::EmitObject, outcome)
    }

    /// Takes the news of how linking ended.
    pub fn linked(&mut self, outcome: Result<(), String>)
        ensures
            final(self).spec_state() == old(self).spec_state().after(Stage::Link, outcome is Ok),
            final(self).spec_failure() == if old(self).spec_state() == State::ObjectEmitted
                && outcome is Err {
                Some(CompileError::Link(outcome->Err_0))
            } else {
                old(self).spec_failure()
            },
    {
        let outcome = match outcome {
            Ok(_) => Ok(()),
            Err(message) => Err(CompileError::Link(message)),
        };
        self.report(Stage::Link, outcome)
    }
}

/// The state after a sequence of news, each of a stage and of whether it
/// succeeded, taken in order.
pub open spec fn run(state: State, news: Seq<(Stage, bool)>) -> State
    decreases news.len(),
{
    if news.len() == 0 {
        state
    } else {
        run(state, news.drop_last()).after(news.last().0, news.last().1)
    }
}

/// The state after the news that the backend is initialized was taken
/// `times` times.
pub open spec fn initialized(state: State, times: nat) -> State
    decreases times,
{
    if times == 0 {
        state
    } else {
        initialized(state, (times - 1) as nat).after(Stage::InitBackend, true)
    }
}

/// A compilation that is over stays as it is, whatever news follows.
pub proof fn lemma_over_is_final(state: State, news: Seq<(Stage, bool)>)
    requires
        state.pending() is None,
    ensures
        run(state, news) == state,
    decreases news.len(),
{
    if news.len() > 0 {
        lemma_over_is_final(state, news.drop_last());
    }
}

/// A failed verification halts the pipeline: the compilation has failed, no
/// stage is pending, and no news that follows brings it to the emission of
/// object code or beyond.
pub proof fn lemma_failed_verification_halts(news: Seq<(Stage, bool)>)
    ensures
        State::ModuleBuilt.after(Stage::Verify, false) == State::Failed,
        State::Failed.pending() is None,
        run(State::ModuleBuilt.after(Stage::Verify, false), news) == State::Failed,
{
    lemma_over_is_final(State::Failed, news);
}

/// The failure of any pending stage fails the compilation for good.
pub proof fn lemma_failure_halts(state: State, stage: Stage, news: Seq<(Stage, bool)>)
    requires
        state.pending() == Some(stage),
    ensures
        run(state.after(stage, false), news) == State::Failed,
{
    lemma_over_is_final(State::Failed, news);
}

/// Initialization is idempotent: told once or many times that the backend is
/// initialized, a compilation stands where it stands after the first time.
pub proof fn lemma_initialization_idempotent(state: State, times: nat)
    requires
        times >= 1,
    ensures
        initialized(state, times) == state.after(Stage::InitBackend, true),
    decreases times,
{
    if times > 1 {
        lemma_initialization_idempotent(state, (times - 1) as nat);
    } else {
        assert(initialized(state, 0) == state);
    }
}

/// No stage is skipped: news moves a compilation by one stage at most, and
/// only news of the pending stage moves it.
pub proof fn lemma_one_stage_at_a_time(state: State, stage: Stage, succeeded: bool)
    ensures
        state.after(stage, succeeded) == state || state.pending() == Some(stage),
        state.after(stage, succeeded) == state || state.after(stage, succeeded) == State::Failed
            || state.after(stage, succeeded) == state.successor(),
{
}

/// Whether code generation has a rule for every node of a declaration.
pub open spec fn compilable(decl: mir::Decl) -> bool {
    match decl {
        mir::Decl::Def(def) => value_of(def.body) is Some,
        mir::Decl::Let(binding) => value_of(binding.value) is Some,
    }
}

/// Whether code generation has a rule for every node of a program.
pub open spec fn all_compilable(program: ProgramView) -> bool {
    &&& program.main is Some ==> value_of(program.main.unwrap().body) is Some
    &&& forall|name: Seq<char>| #[trigger]
        program.decls.dom().contains(name) ==> compilable(program.decls[name])
}

/// What lowering lets through, code generation has a rule for.
pub proof fn lemma_lowered_is_compilable(
    start: ProgramView,
    decls: Seq<(String, typing::Decl)>,
    count: nat,
)
    requires
        count <= decls.len(),
        all_compilable(start),
    ensures
        all_compilable(lower_prefix(start, decls, count).program),
    decreases count,
{
    if count > 0 {
        lemma_lowered_is_compilable(start, decls, (count - 1) as nat);
    }
}

/// Code generation succeeds on every well-formed program for whose nodes it
/// has rules.
pub proof fn lemma_compilable_is_emitted(start: ModuleView, program: ProgramView, count: nat)
    requires
        count <= program.names.len(),
        program.wf(),
        all_compilable(program),
    ensures
        emit_prefix(start, program, count).error is None,
    decreases count,
{
    if count > 0 {
        lemma_compilable_is_emitted(start, program, (count - 1) as nat);
        let name = program.names[count - 1];
        assert(program.names.contains(name));
        assert(program.decls.dom().contains(name));
    }
}

/// The two sets of rules agree: a module that lowering accepts never fails in
/// code generation, so a compilation fails before its module is built
/// exactly if lowering fails, and with the failure of lowering.
pub proof fn lemma_build_fails_in_lowering_only(decls: Seq<(String, typing::Decl)>)
    ensures
        match lower_all(ProgramView::empty(), decls).error {
            Some(error) => compiled(decls) == Err::<ModuleView, CompileError>(
                CompileError::Lowering(error),
            ),
            None => compiled(decls) is Ok,
        },
{
    let lowered = lower_all(ProgramView::empty(), decls);
    if lowered.error is None {
        let fresh = ModuleView { name: "main"@, functions: Seq::empty(), globals: Seq::empty() };
        lemma_lowered_is_compilable(ProgramView::empty(), decls, decls.len());
        lemma_lowering_keeps_wf(ProgramView::empty(), decls, decls.len());
        lemma_compilable_is_emitted(
            emit_main(fresh, lowered.program.main).module,
            lowered.program,
            lowered.program.names.len(),
        );
    }
}

} // verus!
