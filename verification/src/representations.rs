//! The parts of a parsed contract that the checking rules look at.

use vstd::prelude::*;

verus! {

/// A name as it is written in a contract.
#[derive(Debug, PartialEq, Eq)]
pub struct ClarityName(pub String);

impl Clone for ClarityName {
    fn clone(&self) -> (r: Self)
        ensures
            r == *self,
    {
        ClarityName(self.0.clone())
    }
}

/// A value that stands in the source of a contract.
///
/// Only unsigned integers are ever looked into here. A value of any other shape is known by the
/// number under which the surrounding analysis keeps it.
#[derive(Debug, PartialEq, Eq, Clone, Copy)]
pub enum Value {
    Int(i128),
    UInt(u128),
    Bool(bool),
    Kept(u64),
}

/// What an expression is.
#[derive(Debug, PartialEq, Eq)]
pub enum SymbolicExpressionType {
    AtomValue(Value),
    Atom(ClarityName),
    List(Vec<SymbolicExpression>),
    LiteralValue(Value),
    Field(u64),
    TraitReference(u64),
}

/// An expression of a contract, with the number that tells it apart from every other one.
#[derive(Debug, PartialEq, Eq)]
pub struct SymbolicExpression {
    pub expr: SymbolicExpressionType,
    pub id: u64,
}

/// The name that `e` consists of, if it is a bare name.
pub open spec fn atom_of(e: SymbolicExpression) -> Option<ClarityName> {
    match e.expr {
        SymbolicExpressionType::Atom(name) => Some(name),
        _ => None,
    }
}

impl SymbolicExpression {
    /// The name that this expression consists of, if it is a bare name.
    pub fn match_atom(&self) -> (r: Option<&ClarityName>)
        ensures
            match r {
                Some(name) => atom_of(*self) == Some(*name),
                None => atom_of(*self) is None,
            },
    {
        match &self.expr {
            SymbolicExpressionType::Atom(name) => Some(name),
            _ => None,
        }
    }
}

/// The versions of the language.
#[derive(Debug, PartialEq, Eq, Clone, Copy)]
pub enum ClarityVersion {
    Clarity1,
    Clarity2,
    Clarity3,
    Clarity4,
}

/// The epochs of the chain, each with rules of its own for how types combine.
#[derive(Debug, PartialEq, Eq, Clone, Copy)]
pub enum StacksEpochId {
    Epoch10,
    Epoch20,
    Epoch2_05,
    Epoch21,
    Epoch22,
    Epoch23,
    Epoch24,
    Epoch25,
    Epoch30,
    Epoch31,
    Epoch32,
    Epoch33,
}

} // verus!
