//! The mid-level program representation that code generation consumes.

use vstd::prelude::*;
use crate::error::LoweringErrorKind;

verus! {

/// The kind of a mid-level expression node.
#[derive(Debug, PartialEq, Eq)]
pub enum NodeKind {
    /// The unit value; it carries nothing.
    Unit,
    /// A 32-bit signed integer.
    Int(i32),
    /// A 64-bit floating-point number, held as its bit pattern.
    Float(u64),
    /// A reference to a named value.
    Ident(String),
    /// A call of a callee on arguments.
    Call(Box<Node>, Vec<Node>),
    /// A conditional: condition, consequence, alternative.
    If(Box<Node>, Box<Node>, Box<Node>),
}

/// A mid-level expression node.
#[derive(Debug, PartialEq, Eq)]
pub struct Node {
    pub kind: NodeKind,
}

/// A callable. The entry point has lost its name; any other definition carries it.
#[derive(Debug, PartialEq, Eq)]
pub struct Def {
    pub name: Option<String>,
    pub body: Node,
}

/// A named value with its initializer.
#[derive(Debug, PartialEq, Eq)]
pub struct Let {
    pub name: String,
    pub value: Node,
}

/// A declaration of a program.
#[derive(Debug, PartialEq, Eq)]
pub enum Decl {
    Def(Box<Def>),
    Let(Box<Let>),
}

/// What a program is: the declared names in the order of their first
/// definition, the declaration each of them stands for, and the entry point.
pub struct ProgramView {
    pub names: Seq<Seq<char>>,
    pub decls: Map<Seq<char>, Decl>,
    pub main: Option<Def>,
}

impl ProgramView {
    /// Every name is listed once, and exactly the listed names are declared.
    pub open spec fn wf(self) -> bool {
        &&& self.names.no_duplicates()
        &&& forall|name: Seq<char>| self.decls.dom().contains(name) <==> self.names.contains(name)
    }

    /// The program without declarations and without an entry point.
    pub open spec fn empty() -> ProgramView {
        ProgramView { names: Seq::empty(), decls: Map::empty(), main: None }
    }

    /// The program after `decl` was registered under `name`: a name that was
    /// declared before keeps its place and gets the new declaration.
    pub open spec fn define(self, name: Seq<char>, decl: Decl) -> ProgramView {
        ProgramView {
            names: if self.decls.dom().contains(name) {
                self.names
            } else {
                self.names.push(name)
            },
            decls: self.decls.insert(name, decl),
            main: self.main,
        }
    }

    /// The program with `def` as its entry point.
    pub open spec fn with_main(self, def: Def) -> ProgramView {
        ProgramView { names: self.names, decls: self.decls, main: Some(def) }
    }

    /// Registering a declaration keeps a program well-formed.
    pub proof fn lemma_define_wf(self, name: Seq<char>, decl: Decl)
        requires
            self.wf(),
        ensures
            self.define(name, decl).wf(),
    {
        let after = self.define(name, decl);
        if self.decls.dom().contains(name) {
            assert forall|n: Seq<char>| after.decls.dom().contains(n) <==> after.names.contains(
                n,
            ) by {}
        } else {
            assert(!self.names.contains(name));
            assert(after.names.no_duplicates());
            assert forall|n: Seq<char>| after.decls.dom().contains(n) <==> after.names.contains(
                n,
            ) by {
                if after.names.contains(n) {
                    let i = choose|i: int| 0 <= i < after.names.len() && after.names[i] == n;
                    if i < self.names.len() {
                        assert(self.names[i] == n);
                        assert(self.names.contains(n));
                    }
                }
                if self.names.contains(n) {
                    let i = choose|i: int| 0 <= i < self.names.len() && self.names[i] == n;
                    assert(after.names[i] == n);
                }
                assert(after.names[self.names.len() as int] == name);
            }
        }
    }
}

/// The place of the first occurrence of a value in a sequence is the one
/// place that holds it and has no occurrence before it.
pub proof fn lemma_first_occurrence<A>(s: Seq<A>, needle: A, i: int)
    requires
        0 <= i < s.len(),
        s[i] == needle,
        forall|j: int| 0 <= j < i ==> s[j] != needle,
    ensures
        s.index_of_first(needle) == Some(i),
{
    s.index_of_first_ensures(needle);
    assert(s.contains(needle));
}

/// A compiled module: its declarations by name, and the entry point apart
/// from them.
#[derive(Debug, PartialEq, Eq)]
pub struct Program {
    decls: Vec<(String, Decl)>,
    main: Option<Box<Def>>,
}

impl View for Program {
    type V = ProgramView;

    closed spec fn view(&self) -> ProgramView {
        ProgramView {
            names: self.keys(),
            decls: Map::new(
                |name: Seq<char>| self.keys().contains(name),
                |name: Seq<char>| self.decls@[self.keys().index_of_first(name).unwrap()].1,
            ),
            main: match self.main {
                Some(def) => Some(*def),
                None => None,
            },
        }
    }
}

impl Program {
    spec fn keys(&self) -> Seq<Seq<char>> {
        Seq::new(self.decls@.len(), |i: int| self.decls@[i].0@)
    }

    /// Every program is well-formed.
    #[verifier::type_invariant]
    pub open spec fn inv(&self) -> bool {
        self@.wf()
    }

    /// A program without declarations and without an entry point.
    pub fn new() -> (program: Program)
        ensures
            program@ == ProgramView::empty(),
            program@.wf(),
    {
        let decls: Vec<(String, Decl)> = Vec::new();
        assert(Seq::new(decls@.len(), |i: int| decls@[i].0@) =~= Seq::<Seq<char>>::empty());
        let program = Program { decls, main: None };
        proof {
            assert(program.keys() =~= Seq::empty());
            assert(program@.names =~= ProgramView::empty().names);
            assert(program@.decls =~= ProgramView::empty().decls);
        }
        program
    }

    /// Registers `decl` under `name`. A declaration that stood under that
    /// name before is replaced: the last write wins.
    pub fn define(&mut self, name: String, decl: Decl)
        ensures
            final(self)@ == old(self)@.define(name@, decl),
            final(self)@.wf(),
    {
        proof {
            use_type_invariant(&*self);
        }
        let ghost keys = self.keys();
        let ghost after = self@.define(name@, decl);
        let mut taken = Program::new();
        core::mem::swap(self, &mut taken);
        let Program { decls, main } = taken;
        let mut decls = decls;
        let mut i: usize = 0;
        let mut found = false;
        while !found && i < decls.len()
            invariant
                i <= decls.len(),
                decls == old(self).decls,
                forall|j: int| 0 <= j < i ==> keys[j] != name@,
                keys == old(self).keys(),
                found ==> i < decls.len() && keys[i as int] == name@,
            decreases decls.len() - i + if found { 0int } else { 1int },
        {
            if decls[i].0 == name {
                found = true;
            } else {
                i += 1;
            }
        }
        if found {
            decls.set(i, (name, decl));
            assert(Seq::new(decls@.len(), |k: int| decls@[k].0@) =~= keys);
            *self = Program { decls, main };
            proof {
                lemma_first_occurrence(keys, name@, i as int);
                assert(self.keys() =~= keys);
                assert(keys.contains(name@));
                assert(old(self)@.decls.dom().contains(name@));
                assert(self@.names =~= after.names);
                assert forall|n: Seq<char>| keys.contains(n) implies self@.decls[n]
                    == after.decls[n] by {
                    keys.index_of_first_ensures(n);
                    assert(old(self)@.decls.dom().contains(n));
                }
                assert(self@.decls =~= after.decls);
            }
        } else {
            decls.push((name, decl));
            assert(!keys.contains(name@));
            assert(Seq::new(decls@.len(), |k: int| decls@[k].0@) =~= keys.push(name@));
            *self = Program { decls, main };
            proof {
                assert(self.keys() =~= keys.push(name@));
                lemma_first_occurrence(self.keys(), name@, keys.len() as int);
                assert(self@.names =~= after.names);
                assert forall|n: Seq<char>| keys.contains(n) implies self.keys().contains(n)
                    && self@.decls[n] == after.decls[n] by {
                    keys.index_of_first_ensures(n);
                    let at = keys.index_of_first(n).unwrap();
                    assert(self.keys()[at] == n);
                    lemma_first_occurrence(self.keys(), n, at);
                }
                assert forall|n: Seq<char>| self.keys().contains(n) implies keys.contains(n) || n
                    == name@ by {
                    let at = choose|at: int| 0 <= at < self.keys().len() && self.keys()[at] == n;
                    if at < keys.len() {
                        assert(keys[at] == n);
                    }
                }
                assert(self@.decls =~= after.decls);
            }
        }
        proof {
            use_type_invariant(&*self);
        }
    }

    /// Installs `def` as the entry point. A program has one entry point: where
    /// one is installed already, the call fails and changes nothing.
    pub fn set_main(&mut self, def: Def) -> (res: Result<(), LoweringErrorKind>)
        ensures
            match res {
                Ok(_) => old(self)@.main is None && final(self)@ == old(self)@.with_main(def),
                Err(kind) => old(self)@.main is Some && kind == LoweringErrorKind::DuplicateMain
                    && final(self)@ == old(self)@,
            },
            final(self)@.wf(),
    {
        proof {
            use_type_invariant(&*self);
        }
        if self.main.is_some() {
            return Err(LoweringErrorKind::DuplicateMain);
        }
        self.main = Some(Box::new(def));
        Ok(())
    }

    /// The entry point, if one was installed.
    pub fn main(&self) -> (res: Option<&Def>)
        ensures
            res is Some <==> self@.main is Some,
            res is Some ==> *res.unwrap() == self@.main.unwrap(),
    {
        match &self.main {
            Some(def) => Some(&**def),
            None => None,
        }
    }

    /// The number of declared names.
    pub fn len(&self) -> (n: usize)
        ensures
            n == self@.names.len(),
    {
        self.decls.len()
    }

    /// The declaration that stands under `name`, if there is one.
    pub fn get(&self, name: &str) -> (res: Option<&Decl>)
        ensures
            res is Some <==> self@.decls.dom().contains(name@),
            res is Some ==> *res.unwrap() == self@.decls[name@],
    {
        let ghost keys = self.keys();
        let wanted = name.to_owned();
        let mut i: usize = 0;
        while i < self.decls.len()
            invariant
                i <= self.decls.len(),
                keys == self.keys(),
                wanted@ == name@,
                forall|j: int| 0 <= j < i ==> keys[j] != name@,
            decreases self.decls.len() - i,
        {
            if self.decls[i].0 == wanted {
                proof {
                    assert(keys[i as int] == name@);
                    lemma_first_occurrence(keys, name@, i as int);
                }
                return Some(&self.decls[i].1);
            }
            i += 1;
        }
        assert(!keys.contains(name@));
        None
    }

    /// The declarations with their names, in the order in which the names
    /// were first defined.
    pub fn entries(&self) -> (entries: &Vec<(String, Decl)>)
        ensures
            self@.wf(),
            entries@.len() == self@.names.len(),
            forall|i: int| 0 <= i < entries@.len() ==> entries@[i].0@ == self@.names[i],
            forall|i: int|
                0 <= i < entries@.len() ==> entries@[i].1 == self@.decls[#[trigger] self@.names[i]],
    {
        proof {
            use_type_invariant(self);
            assert forall|i: int| 0 <= i < self.decls@.len() implies self.decls@[i].1
                == self@.decls[#[trigger] self@.names[i]] by {
                let keys = self.keys();
                assert(keys[i] == self@.names[i]);
                keys.index_of_first_ensures(keys[i]);
            }
        }
        &self.decls
    }
}

} // verus!
