//! What holds of the patch operations on every document.

use vstd::prelude::*;
use crate::sql::idiom::starts_with;
use crate::sql::idiom::Step;
use crate::sql::operation::Op;
use crate::sql::patch::added;
use crate::sql::patch::apply_op;
use crate::sql::patch::child;
use crate::sql::patch::cut;
use crate::sql::patch::inserted;
use crate::sql::patch::patched;
use crate::sql::patch::put;
use crate::sql::patch::reach;
use crate::sql::patch::run;
use crate::sql::patch::with_child;
use crate::sql::patch::Failure;
use crate::sql::patch::Reach;
use crate::sql::value::Doc;

verus! {

/// A child put in place of another is the child that its step leads to.
proof fn lemma_child_of_with_child(d: Doc, step: Step, c: Doc)
    requires
        child(d, step) is Found,
    ensures
        child(with_child(d, step, c), step) == Reach::Found(c),
{
}

/// A path leads to the node that was put where it led.
pub proof fn law_put_is_found(d: Doc, path: Seq<Step>, node: Doc)
    requires
        reach(d, path) is Found,
    ensures
        reach(put(d, path, node), path) == Reach::Found(node),
    decreases path.len(),
{
    if path.len() > 0 {
        let c = child(d, path[0])->Found_0;
        law_put_is_found(c, path.drop_first(), node);
        lemma_child_of_with_child(d, path[0], put(c, path.drop_first(), node));
    }
}

/// A path leads to the node that was added at it, where it led to a node
/// before or to an absent key. (The one other way to add a node is at a
/// position past the end of an array: the node is then appended, and the
/// path leads to it only if the position is the old length.)
pub proof fn law_inserted_is_found(d: Doc, path: Seq<Step>, node: Doc)
    requires
        reach(d, path) !is Unreachable,
    ensures
        reach(inserted(d, path, node), path) == Reach::Found(node),
    decreases path.len(),
{
    if path.len() > 1 {
        let c = child(d, path[0])->Found_0;
        let rest = path.drop_first();
        assert(rest.last() == path.last());
        law_inserted_is_found(c, rest, node);
        lemma_child_of_with_child(d, path[0], inserted(c, rest, node));
    } else if path.len() == 1 {
        assert(path.last() == path[0]);
        assert(reach(node, path.drop_first()) == Reach::Found(node));
        assert(reach(d, path) is Found ==> child(d, path[0]) is Found);
    }
}

/// Once the node under a key is removed, the key is missing from its
/// object.
pub proof fn law_cut_is_missing(d: Doc, path: Seq<Step>)
    requires
        reach(d, path) is Found,
        path.len() > 0,
        path.last() is Key,
    ensures
        reach(cut(d, path), path) is Missing,
    decreases path.len(),
{
    if path.len() > 1 {
        let c = child(d, path[0])->Found_0;
        let rest = path.drop_first();
        assert(rest.last() == path.last());
        law_cut_is_missing(c, rest);
        lemma_child_of_with_child(d, path[0], cut(c, rest));
    } else {
        assert(path.last() == path[0]);
    }
}

/// Whether two paths part ways at step `i`: they agree on the steps before
/// it and differ in it.
pub open spec fn part_at(p: Seq<Step>, q: Seq<Step>, i: int) -> bool {
    &&& 0 <= i < p.len()
    &&& i < q.len()
    &&& p[i] != q[i]
    &&& forall|j: int| 0 <= j < i ==> p[j] == q[j]
}

/// Paths that part ways at a later step still do so without their first
/// step.
proof fn lemma_part_at_rest(p: Seq<Step>, q: Seq<Step>, i: int)
    requires
        part_at(p, q, i),
        i > 0,
    ensures
        part_at(p.drop_first(), q.drop_first(), i - 1),
        p[0] == q[0],
{
    let pr = p.drop_first();
    let qr = q.drop_first();
    assert forall|j: int| 0 <= j < i - 1 implies pr[j] == qr[j] by {
        assert(pr[j] == p[j + 1] && qr[j] == q[j + 1]);
    }
}

/// Putting a node in place of another changes nothing elsewhere: a path that
/// parts ways with the path of the node leads where it led before.
pub proof fn law_put_elsewhere(d: Doc, p: Seq<Step>, q: Seq<Step>, node: Doc, i: int)
    requires
        part_at(p, q, i),
    ensures
        reach(put(d, p, node), q) == reach(d, q),
    decreases p.len(),
{
    if let Reach::Found(c) = child(d, p[0]) {
        let after = put(c, p.drop_first(), node);
        if i == 0 {
            assert(child(with_child(d, p[0], after), q[0]) == child(d, q[0]));
        } else {
            lemma_part_at_rest(p, q, i);
            law_put_elsewhere(c, p.drop_first(), q.drop_first(), node, i - 1);
            lemma_child_of_with_child(d, p[0], after);
        }
    }
}

/// Whether an addition or a removal at `p` leaves alone what `q` leads to,
/// given that the paths part ways at step `i`: it does unless both paths
/// lead into the array that gains or loses an element, where the elements
/// after that one change their positions.
pub open spec fn clear_of(p: Seq<Step>, q: Seq<Step>, i: int) -> bool {
    part_at(p, q, i) && (i + 1 < p.len() || !(p[i] is Index && q[i] is Index))
}

/// Adding a node changes nothing elsewhere.
pub proof fn law_inserted_elsewhere(d: Doc, p: Seq<Step>, q: Seq<Step>, node: Doc, i: int)
    requires
        clear_of(p, q, i),
    ensures
        reach(inserted(d, p, node), q) == reach(d, q),
    decreases p.len(),
{
    if p.len() == 1 {
        assert(child(inserted(d, p, node), q[0]) == child(d, q[0]));
    } else if let Reach::Found(c) = child(d, p[0]) {
        let after = inserted(c, p.drop_first(), node);
        if i == 0 {
            assert(child(with_child(d, p[0], after), q[0]) == child(d, q[0]));
        } else {
            lemma_part_at_rest(p, q, i);
            law_inserted_elsewhere(c, p.drop_first(), q.drop_first(), node, i - 1);
            lemma_child_of_with_child(d, p[0], after);
        }
    }
}

/// Removing a node changes nothing elsewhere.
pub proof fn law_cut_elsewhere(d: Doc, p: Seq<Step>, q: Seq<Step>, i: int)
    requires
        clear_of(p, q, i),
    ensures
        reach(cut(d, p), q) == reach(d, q),
    decreases p.len(),
{
    if p.len() == 1 {
        assert(child(cut(d, p), q[0]) == child(d, q[0]));
    } else if let Reach::Found(c) = child(d, p[0]) {
        let after = cut(c, p.drop_first());
        if i == 0 {
            assert(child(with_child(d, p[0], after), q[0]) == child(d, q[0]));
        } else {
            lemma_part_at_rest(p, q, i);
            law_cut_elsewhere(c, p.drop_first(), q.drop_first(), i - 1);
            lemma_child_of_with_child(d, p[0], after);
        }
    }
}

/// A replacement changes nothing but the node it replaces: a path that
/// parts ways with the path of the node leads where it led before.
pub proof fn law_replace_elsewhere(d: Doc, path: Seq<Step>, value: Doc, other: Seq<Step>, i: int)
    requires
        apply_op(d, Op::Replace { path, value }) is Ok,
        part_at(path, other, i),
    ensures
        reach(apply_op(d, Op::Replace { path, value })->Ok_0, other) == reach(d, other),
{
    law_put_elsewhere(d, path, other, value, i);
}

/// The destination of a copy leads to the node that the source led to,
/// unless the copy was appended to an array.
pub proof fn law_copy_lands(d: Doc, path: Seq<Step>, from: Seq<Step>)
    requires
        apply_op(d, Op::Copy { path, from }) is Ok,
        reach(d, path) !is Unreachable,
    ensures
        reach(apply_op(d, Op::Copy { path, from })->Ok_0, path) == reach(d, from),
{
    law_inserted_is_found(d, path, reach(d, from)->Found_0);
}

/// A copy leaves its source as it was, where the copy does not shift the
/// source within an array.
pub proof fn law_copy_keeps_source(d: Doc, path: Seq<Step>, from: Seq<Step>, i: int)
    requires
        apply_op(d, Op::Copy { path, from }) is Ok,
        clear_of(path, from, i),
    ensures
        reach(apply_op(d, Op::Copy { path, from })->Ok_0, from) == reach(d, from),
{
    law_inserted_elsewhere(d, path, from, reach(d, from)->Found_0, i);
}

/// The destination of a move leads to the node that the source led to,
/// unless the node was appended to an array.
pub proof fn law_move_lands(d: Doc, path: Seq<Step>, from: Seq<Step>)
    requires
        apply_op(d, Op::Move { path, from }) is Ok,
        reach(cut(d, from), path) !is Unreachable,
    ensures
        reach(apply_op(d, Op::Move { path, from })->Ok_0, path) == reach(d, from),
{
    law_inserted_is_found(cut(d, from), path, reach(d, from)->Found_0);
}

/// A move out of an object leaves the key of the source absent, where the
/// paths part ways.
pub proof fn law_move_takes_source(d: Doc, path: Seq<Step>, from: Seq<Step>, i: int)
    requires
        apply_op(d, Op::Move { path, from }) is Ok,
        from.last() is Key,
        clear_of(path, from, i),
    ensures
        reach(apply_op(d, Op::Move { path, from })->Ok_0, from) is Missing,
{
    law_cut_is_missing(d, from);
    law_inserted_elsewhere(cut(d, from), path, from, reach(d, from)->Found_0, i);
}

/// A test never changes the document: where it passes, the document is as
/// it was.
pub proof fn law_test_keeps_document(d: Doc, path: Seq<Step>, value: Doc)
    requires
        apply_op(d, Op::Test { path, value }) is Ok,
    ensures
        apply_op(d, Op::Test { path, value }) == Ok::<Doc, Failure>(d),
{
}

/// An absent node passes for null and for nothing else.
pub proof fn law_test_of_absent(d: Doc, path: Seq<Step>, value: Doc)
    requires
        reach(d, path) is Missing,
    ensures
        apply_op(d, Op::Test { path, value }) is Ok <==> value == Doc::Null,
{
}

/// What was replaced passes the test for its new value.
pub proof fn law_replace_then_test(d: Doc, path: Seq<Step>, value: Doc)
    requires
        apply_op(d, Op::Replace { path, value }) is Ok,
    ensures
        apply_op(apply_op(d, Op::Replace { path, value })->Ok_0, Op::Test { path, value })
            == apply_op(d, Op::Replace { path, value }),
{
    law_put_is_found(d, path, value);
}

/// What was added passes the test for its value, unless it was appended to
/// an array.
pub proof fn law_add_then_test(d: Doc, path: Seq<Step>, value: Doc)
    requires
        apply_op(d, Op::Add { path, value }) is Ok,
        reach(d, path) !is Unreachable,
    ensures
        apply_op(apply_op(d, Op::Add { path, value })->Ok_0, Op::Test { path, value })
            == apply_op(d, Op::Add { path, value }),
{
    law_inserted_is_found(d, path, value);
}

/// What was removed from under a key cannot be removed again.
pub proof fn law_remove_then_remove(d: Doc, path: Seq<Step>)
    requires
        apply_op(d, Op::Remove { path }) is Ok,
        path.len() > 0,
        path.last() is Key,
    ensures
        apply_op(apply_op(d, Op::Remove { path })->Ok_0, Op::Remove { path }) == Err::<
            Doc,
            Failure,
        >(Failure::PatchPrecondition),
{
    law_cut_is_missing(d, path);
}

/// A node cannot be moved onto itself or into itself: a move whose
/// destination begins with its source fails, whatever the document.
pub proof fn law_move_into_itself_fails(d: Doc, path: Seq<Step>, from: Seq<Step>)
    requires
        starts_with(path, from),
    ensures
        apply_op(d, Op::Move { path, from }) == Err::<Doc, Failure>(Failure::PatchPrecondition),
{
}

/// A move is the removal of the source followed by the addition of what was
/// there at the destination.
pub proof fn law_move_is_remove_then_add(d: Doc, path: Seq<Step>, from: Seq<Step>)
    requires
        !starts_with(path, from),
    ensures
        apply_op(d, Op::Move { path, from }) == (match apply_op(d, Op::Remove { path: from }) {
            Ok(without) => added(without, path, reach(d, from)->Found_0),
            Err(failure) => Err(failure),
        }),
{
}

/// A copy is the addition at the destination of the node at the source.
pub proof fn law_copy_is_add_of_source(d: Doc, path: Seq<Step>, from: Seq<Step>)
    requires
        reach(d, from) is Found,
    ensures
        apply_op(d, Op::Copy { path, from }) == apply_op(
            d,
            Op::Add { path, value: reach(d, from)->Found_0 },
        ),
{
}

/// The empty batch leaves the document as it is.
pub proof fn law_empty_batch(d: Doc)
    ensures
        patched(d, Seq::<Op>::empty()) == Ok::<Doc, (nat, Failure)>(d),
{
}

/// The outcome of the second part of a batch, counted from the start of the
/// whole batch.
pub open spec fn later(r: Result<Doc, (nat, Failure)>, by: nat) -> Result<Doc, (nat, Failure)> {
    match r {
        Ok(d) => Ok(d),
        Err((i, failure)) => Err((i + by, failure)),
    }
}

/// Running the first `n` operations of the second part after all of the
/// first part.
proof fn lemma_run_in_sequence(d: Doc, first: Seq<Op>, rest: Seq<Op>, n: nat)
    requires
        n <= rest.len(),
    ensures
        run(d, first + rest, first.len() + n) == (match patched(d, first) {
            Ok(between) => later(run(between, rest, n), first.len()),
            Err(e) => Err(e),
        }),
    decreases n,
{
    if n == 0 {
        lemma_run_prefix(d, first, rest, first.len());
    } else {
        lemma_run_in_sequence(d, first, rest, (n - 1) as nat);
        assert((first + rest)[first.len() + n - 1] == rest[n - 1]);
    }
}

/// The operations after the first `n` do not count for what the first `n`
/// do.
proof fn lemma_run_prefix(d: Doc, first: Seq<Op>, rest: Seq<Op>, n: nat)
    requires
        n <= first.len(),
    ensures
        run(d, first + rest, n) == run(d, first, n),
    decreases n,
{
    if n > 0 {
        lemma_run_prefix(d, first, rest, (n - 1) as nat);
        assert((first + rest)[n - 1] == first[n - 1]);
    }
}

/// A batch in two parts does what its parts do one after the other: the
/// second part works on what the first part left, and where the first part
/// fails the second is never tried.
pub proof fn law_batch_in_sequence(d: Doc, first: Seq<Op>, rest: Seq<Op>)
    ensures
        patched(d, first + rest) == (match patched(d, first) {
            Ok(between) => later(patched(between, rest), first.len()),
            Err(e) => Err(e),
        }),
{
    lemma_run_in_sequence(d, first, rest, rest.len());
}

/// A batch that fails has failed at one of its operations, after all the
/// operations before that one succeeded.
pub proof fn law_failure_is_first(d: Doc, ops: Seq<Op>)
    requires
        patched(d, ops) is Err,
    ensures
        ({
            let (i, failure) = patched(d, ops)->Err_0;
            &&& i < ops.len()
            &&& run(d, ops, i) is Ok
            &&& apply_op(run(d, ops, i)->Ok_0, ops[i as int]) == Err::<Doc, Failure>(failure)
        }),
{
    lemma_failure_is_first(d, ops, ops.len());
}

proof fn lemma_failure_is_first(d: Doc, ops: Seq<Op>, n: nat)
    requires
        run(d, ops, n) is Err,
    ensures
        ({
            let (i, failure) = run(d, ops, n)->Err_0;
            &&& i < n
            &&& run(d, ops, i) is Ok
            &&& apply_op(run(d, ops, i)->Ok_0, ops[i as int]) == Err::<Doc, Failure>(failure)
        }),
    decreases n,
{
    if n > 0 && run(d, ops, (n - 1) as nat) is Err {
        lemma_failure_is_first(d, ops, (n - 1) as nat);
    }
}

} // verus!
