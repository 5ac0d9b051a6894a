//! Lowering: from the type-checked declaration tree to the mid-level program.

use vstd::prelude::*;
use crate::error::{LoweringError, LoweringErrorKind};
use crate::mir;
use crate::mir::ProgramView;
use crate::typing::{Decl, DeclKind, Def, Let, Module, Node, NodeKind};

verus! {

/// The mid-level kind that a typed kind lowers to; `None` for a kind that has
/// no lowering rule.
pub open spec fn lower_kind(kind: NodeKind) -> Option<mir::NodeKind> {
    match kind {
        NodeKind::Unit => Some(mir::NodeKind::Unit),
        NodeKind::Int(n) => Some(mir::NodeKind::Int(n)),
        NodeKind::Float(bits) => Some(mir::NodeKind::Float(bits)),
        _ => None,
    }
}

/// The mid-level node that a typed node lowers to.
pub open spec fn lower_node(node: Node) -> Option<mir::Node> {
    match lower_kind(node.kind) {
        Some(kind) => Some(mir::Node { kind }),
        None => None,
    }
}

/// The mid-level definition that a typed definition lowers to. The entry
/// point loses its name.
pub open spec fn lower_def(def: Def) -> Option<mir::Def> {
    match lower_node(def.body) {
        Some(body) => Some(
            mir::Def { name: if def.main {
                None
            } else {
                Some(def.name)
            }, body },
        ),
        None => None,
    }
}

/// The mid-level binding that a typed binding lowers to.
pub open spec fn lower_let(binding: Let) -> Option<mir::Let> {
    match lower_node(binding.value) {
        Some(value) => Some(mir::Let { name: binding.name, value }),
        None => None,
    }
}

/// Whether every node of a declaration has a lowering rule.
pub open spec fn supported(decl: Decl) -> bool {
    match decl.kind {
        DeclKind::Def(def) => lower_def(*def) is Some,
        DeclKind::Let(binding) => lower_let(*binding) is Some,
    }
}

/// The program after the declaration `decl`, met under `name`, was lowered
/// and registered, or the reason why it could not be.
pub open spec fn register(program: ProgramView, name: String, decl: Decl) -> Result<
    ProgramView,
    LoweringError,
> {
    match decl.kind {
        DeclKind::Def(def) => match lower_def(*def) {
            None => Err(LoweringError { kind: LoweringErrorKind::Unsupported, decl: name }),
            Some(lowered) => if !def.main {
                Ok(program.define(name@, mir::Decl::Def(Box::new(lowered))))
            } else if program.main is Some {
                Err(LoweringError { kind: LoweringErrorKind::DuplicateMain, decl: name })
            } else {
                Ok(program.with_main(lowered))
            },
        },
        DeclKind::Let(binding) => match lower_let(*binding) {
            None => Err(LoweringError { kind: LoweringErrorKind::Unsupported, decl: name }),
            Some(lowered) => Ok(program.define(name@, mir::Decl::Let(Box::new(lowered)))),
        },
    }
}

/// How far lowering has come: the program built so far, and the failure that
/// stopped it, if one did.
pub struct Progress {
    pub program: ProgramView,
    pub error: Option<LoweringError>,
}

/// Lowering of the first `count` declarations of `decls`, in order, into
/// `start`. The first failure stops it: the program stays as it was before
/// the failing declaration.
pub open spec fn lower_prefix(start: ProgramView, decls: Seq<(String, Decl)>, count: nat) -> Progress
    decreases count,
{
    if count == 0 {
        Progress { program: start, error: None }
    } else {
        let before = lower_prefix(start, decls, (count - 1) as nat);
        if before.error is Some {
            before
        } else {
            match register(before.program, decls[count - 1].0, decls[count - 1].1) {
                Ok(program) => Progress { program, error: None },
                Err(error) => Progress { program: before.program, error: Some(error) },
            }
        }
    }
}

/// Lowering of all of `decls` into `start`.
pub open spec fn lower_all(start: ProgramView, decls: Seq<(String, Decl)>) -> Progress {
    lower_prefix(start, decls, decls.len())
}

/// The lowering pass over one module. It owns the program that it builds.
#[derive(Debug)]
pub struct Transform {
    program: mir::Program,
}

impl View for Transform {
    type V = ProgramView;

    closed spec fn view(&self) -> ProgramView {
        self.program@
    }
}

impl Transform {
    /// A pass that has lowered nothing yet.
    pub fn new() -> (transform: Transform)
        ensures
            transform@ == ProgramView::empty(),
            transform@.wf(),
    {
        Transform { program: mir::Program::new() }
    }

    /// Lowers one expression node. A kind without a lowering rule is
    /// rejected; nothing stands in for it.
    pub fn node(&mut self, node: Node) -> (res: Result<mir::Node, LoweringErrorKind>)
        ensures
            final(self)@ == old(self)@,
            match lower_node(node) {
                Some(lowered) => res == Ok::<mir::Node, LoweringErrorKind>(lowered),
                None => res == Err::<mir::Node, LoweringErrorKind>(LoweringErrorKind::Unsupported),
            },
    {
        match node.kind {
            NodeKind::Unit => Ok(mir::Node { kind: mir::NodeKind::Unit }),
            NodeKind::Int(n) => Ok(mir::Node { kind: mir::NodeKind::Int(n) }),
            NodeKind::Float(bits) => Ok(mir::Node { kind: mir::NodeKind::Float(bits) }),
            _ => Err(LoweringErrorKind::Unsupported),
        }
    }

    /// Lowers one definition.
    pub fn def(&mut self, def: Def) -> (res: Result<mir::Def, LoweringErrorKind>)
        ensures
            final(self)@ == old(self)@,
            match lower_def(def) {
                Some(lowered) => res == Ok::<mir::Def, LoweringErrorKind>(lowered),
                None => res == Err::<mir::Def, LoweringErrorKind>(LoweringErrorKind::Unsupported),
            },
    {
        let Def { name, body, main } = def;
        match self.node(body) {
            Ok(body) => Ok(mir::Def { name: if main {
                None
            } else {
                Some(name)
            }, body }),
            Err(kind) => Err(kind),
        }
    }

    /// Lowers the declaration `decl`, met under `name`, and registers it: the
    /// entry point in its own slot, anything else under `name`. On failure
    /// the program is left as it was.
    pub fn register_decl(&mut self, name: String, decl: Decl) -> (res: Result<(), LoweringError>)
        ensures
            match register(old(self)@, name, decl) {
                Ok(program) => res is Ok && final(self)@ == program,
                Err(error) => res == Err::<(), LoweringError>(error) && final(self)@ == old(self)@,
            },
            final(self)@.wf(),
    {
        proof {
            use_type_invariant(&self.program);
        }
        match decl.kind {
            DeclKind::Def(def) => {
                let is_main = def.is_main();
                let def = match self.def(*def) {
                    Ok(def) => def,
                    Err(kind) => {
                        return Err(LoweringError { kind, decl: name });
                    },
                };
                if is_main {
                    match self.program.set_main(def) {
                        Ok(_) => Ok(()),
                        Err(kind) => Err(LoweringError { kind, decl: name }),
                    }
                } else {
                    self.program.define(name, mir::Decl::Def(Box::new(def)));
                    Ok(())
                }
            },
            DeclKind::Let(binding) => {
                let Let { name: let_name, value } = *binding;
                let node = match self.node(value) {
                    Ok(node) => node,
                    Err(kind) => {
                        return Err(LoweringError { kind, decl: name });
                    },
                };
                let lowered = mir::Let { name: let_name, value: node };
                self.program.define(name, mir::Decl::Let(Box::new(lowered)));
                Ok(())
            },
        }
    }

    /// Lowers the declarations of `module` in their order. The first failure
    /// ends the pass and is returned.
    pub fn module(&mut self, module: Module) -> (res: Result<(), LoweringError>)
        ensures
            final(self)@ == lower_all(old(self)@, module.decls@).program,
            match lower_all(old(self)@, module.decls@).error {
                None => res is Ok,
                Some(error) => res == Err::<(), LoweringError>(error),
            },
            final(self)@.wf(),
    {
        proof {
            use_type_invariant(&self.program);
        }
        let ghost start = self@;
        let ghost decls = module.decls@;
        for (decl_name, decl) in iter: module.decls.into_iter()
            invariant
                iter.seq() == decls,
                decls == module.decls@,
                start == old(self)@,
                lower_prefix(start, decls, iter.index() as nat).error is None,
                self@ == lower_prefix(start, decls, iter.index() as nat).program,
                self@.wf(),
        {
            match self.register_decl(decl_name, decl) {
                Ok(_) => {},
                Err(error) => {
                    proof {
                        lemma_failure_is_final(start, decls, (iter.index() + 1) as nat);
                    }
                    return Err(error);
                },
            }
        }
        Ok(())
    }

    /// The program that was built.
    pub fn into_program(self) -> (program: mir::Program)
        ensures
            program@ == self@,
            program@.wf(),
    {
        proof {
            use_type_invariant(&self.program);
        }
        self.program
    }
}

/// Once lowering has failed, the declarations that follow change nothing.
pub proof fn lemma_failure_is_final(start: ProgramView, decls: Seq<(String, Decl)>, count: nat)
    requires
        count <= decls.len(),
        lower_prefix(start, decls, count).error is Some,
    ensures
        lower_all(start, decls) == lower_prefix(start, decls, count),
    decreases decls.len() - count,
{
    if count < decls.len() {
        lemma_failure_is_final(start, decls, count + 1);
    }
}

/// Lowers a type-checked module to a program.
pub fn typed_ast_to_mir(module: Module) -> (res: Result<mir::Program, LoweringError>)
    ensures
        match lower_all(ProgramView::empty(), module.decls@).error {
            None => res is Ok && res.unwrap()@ == lower_all(
                ProgramView::empty(),
                module.decls@,
            ).program && res.unwrap()@.wf(),
            Some(error) => res == Err::<mir::Program, LoweringError>(error),
        },
{
    let mut transform = Transform::new();
    match transform.module(module) {
        Ok(_) => Ok(transform.into_program()),
        Err(error) => Err(error),
    }
}


/// Whether one of the first `count` declarations is not an entry point and
/// stands under `name`.
pub open spec fn declares(decls: Seq<(String, Decl)>, count: nat, name: Seq<char>) -> bool {
    exists|k: int| 0 <= k < count && !decls[k].1.is_entry() && #[trigger] decls[k].0@ == name
}

/// A pass that has come through `count` declarations without failure has come
/// through every shorter prefix without failure.
pub proof fn lemma_success_of_prefixes(
    start: ProgramView,
    decls: Seq<(String, Decl)>,
    count: nat,
    shorter: nat,
)
    requires
        shorter <= count,
        lower_prefix(start, decls, count).error is None,
    ensures
        lower_prefix(start, decls, shorter).error is None,
    decreases count,
{
    if shorter < count {
        lemma_success_of_prefixes(start, decls, (count - 1) as nat, shorter);
    }
}

/// Where lowering of a prefix succeeds and the prefix holds an entry point,
/// the program's entry slot holds that definition, lowered.
pub proof fn lemma_entry_point_installed(
    start: ProgramView,
    decls: Seq<(String, Decl)>,
    count: nat,
    i: int,
)
    requires
        0 <= i < count <= decls.len(),
        decls[i].1.is_entry(),
        lower_prefix(start, decls, count).error is None,
    ensures
        lower_prefix(start, decls, count).program.main is Some,
        lower_prefix(start, decls, count).program.main == lower_def(*decls[i].1.kind->Def_0),
    decreases count,
{
    if i < count - 1 {
        lemma_entry_point_installed(start, decls, (count - 1) as nat, i);
    }
}

/// Entry-point uniqueness: a module with two definitions flagged as entry
/// point is never lowered to a program; lowering fails.
pub proof fn lemma_second_entry_point_rejected(
    start: ProgramView,
    decls: Seq<(String, Decl)>,
    i: int,
    j: int,
)
    requires
        0 <= i < j < decls.len(),
        decls[i].1.is_entry(),
        decls[j].1.is_entry(),
    ensures
        lower_all(start, decls).error is Some,
{
    if lower_all(start, decls).error is None {
        lemma_success_of_prefixes(start, decls, decls.len(), (j + 1) as nat);
        lemma_entry_point_installed(start, decls, j as nat, i);
    }
}

/// Where every node of a module has a lowering rule, the one failure that
/// lowering can end in is a second entry point.
pub proof fn lemma_failure_of_supported_module(
    start: ProgramView,
    decls: Seq<(String, Decl)>,
    count: nat,
)
    requires
        count <= decls.len(),
        forall|k: int| 0 <= k < decls.len() ==> supported(#[trigger] decls[k].1),
        lower_prefix(start, decls, count).error is Some,
    ensures
        lower_prefix(start, decls, count).error.unwrap().kind == LoweringErrorKind::DuplicateMain,
    decreases count,
{
    if count > 0 {
        let before = lower_prefix(start, decls, (count - 1) as nat);
        if before.error is Some {
            lemma_failure_of_supported_module(start, decls, (count - 1) as nat);
        } else {
            assert(supported(decls[count - 1].1));
        }
    }
}

/// The names under which a successfully lowered prefix has registered
/// declarations: those that the program held at the start, and those of the
/// declarations of the prefix that are not an entry point.
pub proof fn lemma_declared_names(start: ProgramView, decls: Seq<(String, Decl)>, count: nat)
    requires
        count <= decls.len(),
        lower_prefix(start, decls, count).error is None,
    ensures
        forall|name: Seq<char>|
            #[trigger] lower_prefix(start, decls, count).program.decls.dom().contains(name) <==> (
            start.decls.dom().contains(name) || declares(decls, count, name)),
    decreases count,
{
    if count > 0 {
        let shorter = (count - 1) as nat;
        lemma_declared_names(start, decls, shorter);
        let before = lower_prefix(start, decls, shorter).program;
        let after = lower_prefix(start, decls, count).program;
        let last = decls[count - 1];
        assert forall|name: Seq<char>| #[trigger] after.decls.dom().contains(name) <==> (
        start.decls.dom().contains(name) || declares(decls, count, name)) by {
            assert(lower_prefix(start, decls, shorter).program.decls.dom().contains(name) <==> (
            start.decls.dom().contains(name) || declares(decls, shorter, name)));
            if declares(decls, count, name) {
                let k = choose|k: int|
                    0 <= k < count && !decls[k].1.is_entry() && #[trigger] decls[k].0@ == name;
                if k < shorter {
                    assert(declares(decls, shorter, name));
                }
            }
            if declares(decls, shorter, name) {
                let k = choose|k: int|
                    0 <= k < shorter && !decls[k].1.is_entry() && #[trigger] decls[k].0@ == name;
                assert(0 <= k < count && !decls[k].1.is_entry() && decls[k].0@ == name);
            }
            if !last.1.is_entry() && last.0@ == name {
                assert(0 <= count - 1 < count && !decls[count - 1].1.is_entry() && decls[count
                    - 1].0@ == name);
            }
        }
    } else {
        assert forall|name: Seq<char>| #[trigger] start.decls.dom().contains(name) <==> (
        start.decls.dom().contains(name) || declares(decls, count, name)) by {}
    }
}

/// Name round-trip: where no declaration of a module is an entry point, the
/// names under which the lowered program holds declarations are the names
/// that the module declares.
pub proof fn lemma_names_round_trip(module: Module)
    requires
        forall|k: int| 0 <= k < module.decls@.len() ==> !(#[trigger] module.decls@[k]).1.is_entry(),
        lower_all(ProgramView::empty(), module.decls@).error is None,
    ensures
        lower_all(ProgramView::empty(), module.decls@).program.decls.dom()
            == module.names().to_set(),
        lower_all(ProgramView::empty(), module.decls@).program.main is None,
{
    let decls = module.decls@;
    let program = lower_all(ProgramView::empty(), decls).program;
    lemma_declared_names(ProgramView::empty(), decls, decls.len());
    lemma_no_entry_point(ProgramView::empty(), decls, decls.len());
    assert forall|name: Seq<char>| program.decls.dom().contains(name) <==> module.names().to_set().contains(
        name,
    ) by {
        if declares(decls, decls.len(), name) {
            let k = choose|k: int|
                0 <= k < decls.len() && !decls[k].1.is_entry() && #[trigger] decls[k].0@ == name;
            assert(module.names()[k] == name);
        }
        if module.names().contains(name) {
            let k = choose|k: int| 0 <= k < module.names().len() && module.names()[k] == name;
            assert(!decls[k].1.is_entry());
            assert(decls[k].0@ == name);
        }
    }
    assert(program.decls.dom() =~= module.names().to_set());
}

/// Where a prefix holds no entry point, lowering it leaves the entry slot as
/// it was.
pub proof fn lemma_no_entry_point(start: ProgramView, decls: Seq<(String, Decl)>, count: nat)
    requires
        count <= decls.len(),
        forall|k: int| 0 <= k < count ==> !(#[trigger] decls[k]).1.is_entry(),
    ensures
        lower_prefix(start, decls, count).program.main == start.main,
    decreases count,
{
    if count > 0 {
        lemma_no_entry_point(start, decls, (count - 1) as nat);
        assert(!decls[count - 1].1.is_entry());
    }
}

/// Entry-point isolation: in the program that a module with distinct names
/// lowers to, a definition flagged as entry point stands in the entry slot,
/// and no declaration stands under its name.
pub proof fn lemma_entry_point_isolated(module: Module, i: int)
    requires
        module.wf(),
        0 <= i < module.decls@.len(),
        module.decls@[i].1.is_entry(),
        lower_all(ProgramView::empty(), module.decls@).error is None,
    ensures
        lower_all(ProgramView::empty(), module.decls@).program.main == lower_def(
            *module.decls@[i].1.kind->Def_0,
        ),
        lower_all(ProgramView::empty(), module.decls@).program.main is Some,
        !lower_all(ProgramView::empty(), module.decls@).program.decls.dom().contains(
            module.decls@[i].0@,
        ),
{
    let decls = module.decls@;
    let name = decls[i].0@;
    lemma_entry_point_installed(ProgramView::empty(), decls, decls.len(), i);
    lemma_declared_names(ProgramView::empty(), decls, decls.len());
    if declares(decls, decls.len(), name) {
        let k = choose|k: int|
            0 <= k < decls.len() && !decls[k].1.is_entry() && #[trigger] decls[k].0@ == name;
        assert(module.names()[k] == module.names()[i]);
    }
}

/// Whether one of the first `count` declarations is an entry point.
pub open spec fn has_entry(decls: Seq<(String, Decl)>, count: nat) -> bool {
    exists|k: int| 0 <= k < count && (#[trigger] decls[k]).1.is_entry()
}

/// Lowering fills the entry slot from an entry point only: where the slot was
/// empty at the start and is filled after a prefix, the prefix holds one.
pub proof fn lemma_entry_slot_origin(start: ProgramView, decls: Seq<(String, Decl)>, count: nat)
    requires
        count <= decls.len(),
        start.main is None,
        lower_prefix(start, decls, count).program.main is Some,
    ensures
        has_entry(decls, count),
    decreases count,
{
    if count > 0 {
        let before = lower_prefix(start, decls, (count - 1) as nat);
        if before.program.main is Some {
            lemma_entry_slot_origin(start, decls, (count - 1) as nat);
            let k = choose|k: int| 0 <= k < count - 1 && (#[trigger] decls[k]).1.is_entry();
            assert(0 <= k < count && decls[k].1.is_entry());
        } else {
            assert(decls[count - 1].1.is_entry());
        }
    }
}

/// Lowering succeeds on every module whose nodes all have a lowering rule
/// and which holds at most one entry point.
pub proof fn lemma_lowering_succeeds(start: ProgramView, decls: Seq<(String, Decl)>, count: nat)
    requires
        count <= decls.len(),
        start.main is None,
        forall|k: int| 0 <= k < decls.len() ==> supported(#[trigger] decls[k].1),
        forall|i: int, j: int|
            0 <= i < decls.len() && 0 <= j < decls.len() && (#[trigger] decls[i]).1.is_entry() && (
            #[trigger] decls[j]).1.is_entry() ==> i == j,
    ensures
        lower_prefix(start, decls, count).error is None,
    decreases count,
{
    if count > 0 {
        let shorter = (count - 1) as nat;
        lemma_lowering_succeeds(start, decls, shorter);
        let before = lower_prefix(start, decls, shorter);
        assert(supported(decls[count - 1].1));
        if decls[count - 1].1.is_entry() && before.program.main is Some {
            lemma_entry_slot_origin(start, decls, shorter);
            let k = choose|k: int| 0 <= k < shorter && (#[trigger] decls[k]).1.is_entry();
            assert(decls[k].1.is_entry() && decls[count - 1].1.is_entry());
        }
    }
}

/// Lowering fails on every module that holds a node without a lowering rule.
pub proof fn lemma_unsupported_rejected(start: ProgramView, decls: Seq<(String, Decl)>, k: int)
    requires
        0 <= k < decls.len(),
        !supported(decls[k].1),
    ensures
        lower_all(start, decls).error is Some,
{
    if lower_all(start, decls).error is None {
        lemma_success_of_prefixes(start, decls, decls.len(), (k + 1) as nat);
    }
}

/// Lowering keeps a program well-formed.
pub proof fn lemma_lowering_keeps_wf(start: ProgramView, decls: Seq<(String, Decl)>, count: nat)
    requires
        count <= decls.len(),
        start.wf(),
    ensures
        lower_prefix(start, decls, count).program.wf(),
    decreases count,
{
    if count > 0 {
        let shorter = (count - 1) as nat;
        lemma_lowering_keeps_wf(start, decls, shorter);
        let before = lower_prefix(start, decls, shorter);
        if before.error is None {
            let name = decls[count - 1].0;
            match decls[count - 1].1.kind {
                DeclKind::Def(def) => {
                    if lower_def(*def) is Some {
                        before.program.lemma_define_wf(
                            name@,
                            mir::Decl::Def(Box::new(lower_def(*def).unwrap())),
                        );
                    }
                },
                DeclKind::Let(binding) => {
                    if lower_let(*binding) is Some {
                        before.program.lemma_define_wf(
                            name@,
                            mir::Decl::Let(Box::new(lower_let(*binding).unwrap())),
                        );
                    }
                },
            }
        }
    }
}

} // verus!
