//! The variable scope that a query is evaluated in: named documents, layered
//! on the scope that the query was started from.

use vstd::prelude::*;
use crate::sql::value::bind;
use crate::sql::value::find_key;
use crate::sql::value::object_of;
use crate::sql::value::Doc;
use crate::sql::value::Value;

verus! {

/// A scope of named documents. A scope may stand on a parent scope: it then
/// shows every binding of the parent that it does not bind itself. A scope
/// never changes its parent.
pub struct Context<'a> {
    parent: Option<&'a Context<'a>>,
    values: Vec<(String, Value)>,
}

impl<'a> View for Context<'a> {
    type V = Map<Seq<char>, Doc>;

    /// The bindings that the scope shows: its own, and those of its parent
    /// that it does not bind itself.
    closed spec fn view(&self) -> Map<Seq<char>, Doc>
        decreases self,
    {
        match self.parent {
            Some(parent) => parent.view().union_prefer_right(object_of(self.values@)),
            None => object_of(self.values@),
        }
    }
}

impl<'a> Context<'a> {
    /// A scope without bindings and without a parent.
    pub fn background() -> (ctx: Context<'a>)
        ensures
            ctx@ == Map::<Seq<char>, Doc>::empty(),
    {
        let ctx = Context { parent: None, values: Vec::new() };
        assert(object_of(ctx.values@) =~= Map::<Seq<char>, Doc>::empty());
        ctx
    }

    /// A scope of its own on top of `parent`, showing what the parent shows.
    pub fn new(parent: &'a Context<'a>) -> (ctx: Context<'a>)
        ensures
            ctx@ == parent@,
    {
        let ctx = Context { parent: Some(parent), values: Vec::new() };
        assert(object_of(ctx.values@) =~= Map::<Seq<char>, Doc>::empty());
        assert(parent@.union_prefer_right(object_of(ctx.values@)) =~= parent@);
        ctx
    }

    /// Binds `key` to `value` in this scope, in place of whatever the scope
    /// showed for the key before.
    pub fn add_value(&mut self, key: &str, value: Value)
        ensures
            final(self)@ == old(self)@.insert(key@, value@),
    {
        let ghost before = object_of(self.values@);
        bind(&mut self.values, key.to_owned(), value);
        proof {
            match self.parent {
                Some(parent) => {
                    assert(parent@.union_prefer_right(before.insert(key@, value@))
                        =~= parent@.union_prefer_right(before).insert(key@, value@));
                },
                None => {},
            }
        }
    }

    /// The document that the scope shows for `key`, if it shows one.
    pub fn value(&self, key: &str) -> (r: Option<&Value>)
        ensures
            match r {
                Some(v) => self@.contains_key(key@) && self@[key@] == v@,
                None => !self@.contains_key(key@),
            },
        decreases self,
    {
        let name = key.to_owned();
        let j = find_key(&self.values, &name);
        proof {
            // What the scope shows is its own bindings over those of its parent
            match self.parent {
                Some(parent) => {
                    assert(self@ == parent@.union_prefer_right(object_of(self.values@)));
                },
                None => {
                    assert(self@ == object_of(self.values@));
                },
            }
        }
        if j < self.values.len() {
            Some(&self.values[j].1)
        } else {
            match self.parent {
                Some(parent) => parent.value(key),
                None => None,
            }
        }
    }
}

} // verus!
