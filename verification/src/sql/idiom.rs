//! Paths into a document: an ordered sequence of steps, each naming a key of
//! an object or a position of an array.

use vstd::prelude::*;

verus! {

/// One step of a path as a mathematical value.
pub enum Step {
    Key(Seq<char>),
    Index(nat),
}

/// One step of a path: the key of an object entry or the position of an
/// array element.
#[derive(Clone, Debug, PartialEq, Eq)]
pub enum Part {
    Key(String),
    Index(usize),
}

impl View for Part {
    type V = Step;

    open spec fn view(&self) -> Step {
        match self {
            Part::Key(k) => Step::Key(k@),
            Part::Index(i) => Step::Index(*i as nat),
        }
    }
}

impl Part {
    /// Whether the two parts denote the same step.
    pub fn same(&self, other: &Part) -> (b: bool)
        ensures
            b == (self@ == other@),
    {
        match (self, other) {
            (Part::Key(x), Part::Key(y)) => *x == *y,
            (Part::Index(x), Part::Index(y)) => *x == *y,
            _ => false,
        }
    }
}

/// A path into a document. The empty path addresses the document itself.
#[derive(Clone, Debug, PartialEq, Eq)]
pub struct Idiom(pub Vec<Part>);

/// Whether `path` begins with every step of `prefix`, in order: whether it
/// addresses the node that `prefix` addresses or a node below it.
pub open spec fn starts_with(path: Seq<Step>, prefix: Seq<Step>) -> bool {
    prefix.len() <= path.len() && forall|i: int| 0 <= i < prefix.len() ==> path[i] == prefix[i]
}

impl View for Idiom {
    type V = Seq<Step>;

    open spec fn view(&self) -> Seq<Step> {
        Seq::new(self.0@.len(), |i: int| self.0@[i]@)
    }
}

impl Idiom {
    /// The number of steps.
    pub fn len(&self) -> (n: usize)
        ensures
            n == self@.len(),
    {
        self.0.len()
    }

    /// Whether this path begins with `prefix`.
    pub fn starts_with(&self, prefix: &Idiom) -> (b: bool)
        ensures
            b == starts_with(self@, prefix@),
    {
        if prefix.0.len() > self.0.len() {
            return false;
        }
        let mut i: usize = 0;
        while i < prefix.0.len()
            invariant
                i <= prefix.0.len() <= self.0.len(),
                forall|k: int| 0 <= k < i ==> self@[k] == prefix@[k],
            decreases prefix.0.len() - i,
        {
            if !self.0[i].same(&prefix.0[i]) {
                assert(self@[i as int] != prefix@[i as int]);
                return false;
            }
            i += 1;
        }
        true
    }
}

} // verus!
