//! The logical environment, as far as the parser reads it.

use crate::lisp::AtomId;
use vstd::prelude::*;

verus! {

/// A system routine that a program can declare, by its place in the table of routines.
#[derive(Clone, Copy, Debug, PartialEq, Eq, Structural)]
pub struct Intrinsic(pub u32);

/// What a formal parameter of a term constructor stands for.
#[derive(Clone, Copy, Debug, PartialEq, Eq, Structural)]
pub enum ArgKind {
    /// A bound variable.
    Bound,
    /// An expression.
    Reg,
}

/// A term constructor of the logic, by its place in the table of terms.
#[derive(Clone, Copy, Debug, PartialEq, Eq, Structural)]
pub struct TermId(pub u32);

/// What the environment knows of one atom.
#[derive(Clone, Copy, Debug)]
pub struct AtomData {
    /// The system routine of this name.
    pub intrinsic: Option<Intrinsic>,
    /// The term constructor of this name.
    pub term: Option<TermId>,
}

/// The tables of atoms and of term constructors.
#[derive(Debug)]
pub struct Environment {
    /// The atoms, by their numbers.
    pub data: Vec<AtomData>,
    /// The kinds of the parameters of each term constructor.
    pub terms: Vec<Vec<ArgKind>>,
}

/// The environment that names are looked up in.
#[derive(Clone, Copy, Debug)]
pub struct FormatEnv<'a> {
    /// The environment.
    pub env: &'a Environment,
}

impl Environment {
    /// The system routine that an atom names.
    pub open spec fn intrinsic_of(self, a: AtomId) -> Option<Intrinsic> {
        if (a.0 as int) < self.data@.len() {
            self.data@[a.0 as int].intrinsic
        } else {
            None
        }
    }

    /// The term constructor that an atom names, with the kinds of its parameters.
    pub open spec fn term_of(self, a: AtomId) -> Option<(TermId, Seq<ArgKind>)> {
        if (a.0 as int) < self.data@.len() {
            match self.data@[a.0 as int].term {
                Some(t) => if (t.0 as int) < self.terms@.len() {
                    Some((t, self.terms@[t.0 as int]@))
                } else {
                    None
                },
                None => None,
            }
        } else {
            None
        }
    }

    /// The system routine that an atom names.
    pub fn intrinsic(&self, a: AtomId) -> (r: Option<Intrinsic>)
        ensures
            r == self.intrinsic_of(a),
    {
        if (a.0 as usize) < self.data.len() {
            self.data[a.0 as usize].intrinsic
        } else {
            None
        }
    }

    /// The term constructor that an atom names, with the kinds of its parameters.
    pub fn term(&self, a: AtomId) -> (r: Option<(TermId, &Vec<ArgKind>)>)
        ensures
            match r {
                Some((t, args)) => self.term_of(a) == Some((t, args@)),
                None => self.term_of(a) is None,
            },
    {
        if (a.0 as usize) < self.data.len() {
            match self.data[a.0 as usize].term {
                Some(t) => if (t.0 as usize) < self.terms.len() {
                    Some((t, &self.terms[t.0 as usize]))
                } else {
                    None
                },
                None => None,
            }
        } else {
            None
        }
    }
}

} // verus!
