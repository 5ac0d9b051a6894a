//! The type-checked declaration tree, as the checking stage hands it over.

use vstd::prelude::*;

verus! {

/// The kind of a typed expression node.
#[derive(Debug, PartialEq, Eq)]
pub enum NodeKind {
    /// The unit literal.
    Unit,
    /// An integer literal.
    Int(i32),
    /// A floating-point literal, held as the bit pattern of its 64-bit value.
    Float(u64),
    /// A reference to a named value.
    Ident(String),
    /// A call of a callee on arguments.
    Call(Box<Node>, Vec<Node>),
    /// A conditional: condition, consequence, alternative.
    If(Box<Node>, Box<Node>, Box<Node>),
}

/// A typed expression node.
#[derive(Debug, PartialEq, Eq)]
pub struct Node {
    pub kind: NodeKind,
}

/// A named callable.
#[derive(Debug, PartialEq, Eq)]
pub struct Def {
    pub name: String,
    pub body: Node,
    /// Set by the checking stage on the definition at which the program starts.
    pub main: bool,
}

/// A named value with its initializer.
#[derive(Debug, PartialEq, Eq)]
pub struct Let {
    pub name: String,
    pub value: Node,
}

#[derive(Debug, PartialEq, Eq)]
pub enum DeclKind {
    Def(Box<Def>),
    Let(Box<Let>),
}

/// A top-level declaration.
#[derive(Debug, PartialEq, Eq)]
pub struct Decl {
    pub kind: DeclKind,
}

/// A type-checked module: its declarations by name, in the order in which
/// they are to be processed.
#[derive(Debug, PartialEq, Eq)]
pub struct Module {
    pub decls: Vec<(String, Decl)>,
}

impl Def {
    /// Whether this definition is the program's entry point.
    pub fn is_main(&self) -> (flag: bool)
        ensures
            flag == self.main,
    {
        self.main
    }
}

impl Decl {
    /// Whether this declaration is a definition flagged as the entry point.
    pub open spec fn is_entry(&self) -> bool {
        match self.kind {
            DeclKind::Def(def) => def.main,
            DeclKind::Let(_) => false,
        }
    }
}

impl Module {
    /// The declaration names, in order.
    pub open spec fn names(&self) -> Seq<Seq<char>> {
        Seq::new(self.decls@.len(), |i: int| self.decls@[i].0@)
    }

    /// No name is declared twice.
    pub open spec fn wf(&self) -> bool {
        self.names().no_duplicates()
    }

    /// A module without declarations.
    pub fn new() -> (module: Module)
        ensures
            module.decls@.len() == 0,
            module.wf(),
    {
        Module { decls: Vec::new() }
    }
}

} // verus!
