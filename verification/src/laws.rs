//! Laws of the evaluator: the vacuous cases, double negation, and the
//! independence of evaluation from the order of the children.
use vstd::prelude::*;

use crate::PredView;
use crate::matches::{Pattern, eval, eval_all, eval_any, lemma_eval_all_forall, lemma_eval_any_exists};

verus! {

/// With no children, `All` holds of every pattern and `Any` of none.
pub proof fn lemma_vacuous_children<P: Pattern>(pat: P)
    ensures
        eval(PredView::All(Seq::empty()), pat),
        !eval(PredView::Any(Seq::empty()), pat),
{
    reveal_with_fuel(eval, 2);
}

/// Double negation: `Not(Not(p))` evaluates as `p`, for every predicate and
/// every pattern.
pub proof fn lemma_double_negation<P: Pattern>(p: PredView, pat: P)
    ensures
        eval(PredView::Not(Box::new(PredView::Not(Box::new(p)))), pat) == eval(p, pat),
{
    reveal_with_fuel(eval, 2);
}

/// Two sequences with the same multiset of elements hold the same elements.
proof fn lemma_same_multiset_same_elements(a: Seq<PredView>, b: Seq<PredView>)
    requires
        a.to_multiset() == b.to_multiset(),
    ensures
        forall|x: PredView| a.contains(x) <==> b.contains(x),
{
    assert forall|x: PredView| a.contains(x) <==> b.contains(x) by {
        vstd::seq_lib::to_multiset_contains(a, x);
        vstd::seq_lib::to_multiset_contains(b, x);
        assert(a.to_multiset().count(x) == b.to_multiset().count(x));
    }
}

/// Evaluating `Any` does not depend on the order of the children: any
/// rearrangement of the same children evaluates the same way.
pub proof fn lemma_any_order_independent<P: Pattern>(a: Seq<PredView>, b: Seq<PredView>, pat: P)
    requires
        a.to_multiset() == b.to_multiset(),
    ensures
        eval(PredView::Any(a), pat) == eval(PredView::Any(b), pat),
{
    lemma_eval_any_exists(a, pat);
    lemma_eval_any_exists(b, pat);
    lemma_same_multiset_same_elements(a, b);
    if exists|i: int| 0 <= i < a.len() && eval(#[trigger] a[i], pat) {
        let i = choose|i: int| 0 <= i < a.len() && eval(#[trigger] a[i], pat);
        assert(a.contains(a[i]));
        let j = choose|j: int| 0 <= j < b.len() && b[j] == a[i];
        assert(eval(b[j], pat));
    }
    if exists|i: int| 0 <= i < b.len() && eval(#[trigger] b[i], pat) {
        let i = choose|i: int| 0 <= i < b.len() && eval(#[trigger] b[i], pat);
        assert(b.contains(b[i]));
        let j = choose|j: int| 0 <= j < a.len() && a[j] == b[i];
        assert(eval(a[j], pat));
    }
}

/// Evaluating `All` does not depend on the order of the children: any
/// rearrangement of the same children evaluates the same way.
pub proof fn lemma_all_order_independent<P: Pattern>(a: Seq<PredView>, b: Seq<PredView>, pat: P)
    requires
        a.to_multiset() == b.to_multiset(),
    ensures
        eval(PredView::All(a), pat) == eval(PredView::All(b), pat),
{
    lemma_eval_all_forall(a, pat);
    lemma_eval_all_forall(b, pat);
    lemma_same_multiset_same_elements(a, b);
    if forall|i: int| 0 <= i < a.len() ==> eval(#[trigger] a[i], pat) {
        assert forall|j: int| 0 <= j < b.len() implies eval(#[trigger] b[j], pat) by {
            assert(b.contains(b[j]));
            let i = choose|i: int| 0 <= i < a.len() && a[i] == b[j];
            assert(eval(a[i], pat));
        }
    } else {
        let i = choose|i: int| 0 <= i < a.len() && !eval(#[trigger] a[i], pat);
        assert(a.contains(a[i]));
        let j = choose|j: int| 0 <= j < b.len() && b[j] == a[i];
        assert(!eval(b[j], pat));
    }
}

} // verus!

