//! The patch operations: one addressed mutation or assertion each.

use vstd::prelude::*;
use crate::sql::idiom::Idiom;
use crate::sql::idiom::Step;
use crate::sql::value::Doc;
use crate::sql::value::Value;

verus! {

/// A patch operation as a mathematical value.
pub enum Op {
    Add { path: Seq<Step>, value: Doc },
    Remove { path: Seq<Step> },
    Replace { path: Seq<Step>, value: Doc },
    Change { path: Seq<Step>, value: Doc },
    Copy { path: Seq<Step>, from: Seq<Step> },
    Move { path: Seq<Step>, from: Seq<Step> },
    Test { path: Seq<Step>, value: Doc },
}

/// The kind of a patch operation, without its operands.
#[derive(Clone, Copy, Debug, PartialEq, Eq, Hash, Structural)]
pub enum Kind {
    Add,
    Remove,
    Replace,
    Change,
    Copy,
    Move,
    Test,
}

/// One addressed mutation or assertion on a document. Every kind carries the
/// path it targets; `Copy` and `Move` carry the path they read from, the
/// other kinds but `Remove` a payload document.
#[derive(Clone, Debug, PartialEq, Eq)]
pub enum Operation {
    Add { path: Idiom, value: Value },
    Remove { path: Idiom },
    Replace { path: Idiom, value: Value },
    Change { path: Idiom, value: Value },
    Copy { path: Idiom, from: Idiom },
    Move { path: Idiom, from: Idiom },
    Test { path: Idiom, value: Value },
}

impl View for Operation {
    type V = Op;

    open spec fn view(&self) -> Op {
        match self {
            Operation::Add { path, value } => Op::Add { path: path@, value: value@ },
            Operation::Remove { path } => Op::Remove { path: path@ },
            Operation::Replace { path, value } => Op::Replace { path: path@, value: value@ },
            Operation::Change { path, value } => Op::Change { path: path@, value: value@ },
            Operation::Copy { path, from } => Op::Copy { path: path@, from: from@ },
            Operation::Move { path, from } => Op::Move { path: path@, from: from@ },
            Operation::Test { path, value } => Op::Test { path: path@, value: value@ },
        }
    }
}

impl Op {
    /// The kind of the operation.
    pub open spec fn kind(self) -> Kind {
        match self {
            Op::Add { .. } => Kind::Add,
            Op::Remove { .. } => Kind::Remove,
            Op::Replace { .. } => Kind::Replace,
            Op::Change { .. } => Kind::Change,
            Op::Copy { .. } => Kind::Copy,
            Op::Move { .. } => Kind::Move,
            Op::Test { .. } => Kind::Test,
        }
    }
}

impl Operation {
    /// The kind of the operation.
    pub fn kind(&self) -> (k: Kind)
        ensures
            k == self@.kind(),
    {
        match self {
            Operation::Add { .. } => Kind::Add,
            Operation::Remove { .. } => Kind::Remove,
            Operation::Replace { .. } => Kind::Replace,
            Operation::Change { .. } => Kind::Change,
            Operation::Copy { .. } => Kind::Copy,
            Operation::Move { .. } => Kind::Move,
            Operation::Test { .. } => Kind::Test,
        }
    }
}

} // verus!
