//! What holds of the counts for every program.

use vstd::prelude::*;
use vstd::seq_lib::lemma_flatten_concat;
use crate::program::{Code, Program};
use crate::terminators::{
    lemma_terminators_across_push, lemma_terminators_in_concat, terminators_across,
    terminators_in,
};

verus! {

/// The count of each function body, in the order of `functions`.
pub open spec fn function_counts(functions: Seq<Seq<Code>>) -> Seq<nat> {
    functions.map_values(|body: Seq<Code>| terminators_in(body))
}

/// The sum of `counts`.
pub open spec fn sum(counts: Seq<nat>) -> nat
    decreases counts.len(),
{
    if counts.len() == 0 {
        0
    } else {
        sum(counts.drop_last()) + counts.last()
    }
}

/// The count of some functions together is the sum of their own counts.
pub proof fn lemma_terminators_across_is_sum(functions: Seq<Seq<Code>>)
    ensures
        terminators_across(functions) == sum(function_counts(functions)),
    decreases functions.len(),
{
    if functions.len() == 0 {
        lemma_no_functions();
    } else {
        let front = functions.drop_last();
        lemma_terminators_across_is_sum(front);
        lemma_terminators_across_push(front, functions.last());
        assert(functions =~= front.push(functions.last()));
        assert(function_counts(functions).drop_last() =~= function_counts(front));
    }
}

/// The count of a program is the sum, over its functions, of the count of
/// each function.
pub proof fn lemma_count_decomposes(program: Program)
    ensures
        terminators_across(program@) == sum(function_counts(program@)),
        forall|i: int|
            0 <= i < program.functions.len() ==> #[trigger] function_counts(program@)[i]
                == terminators_in(program.functions[i]@),
{
    lemma_terminators_across_is_sum(program@);
}

/// Two results of counting the same program are equal: the count depends on
/// nothing but the program.
pub proof fn lemma_count_repeats(program: Program, first: u128, second: u128)
    requires
        first == terminators_across(program@),
        second == terminators_across(program@),
    ensures
        first == second,
{
}

/// No functions, no terminators; and a body without instructions has none.
pub proof fn lemma_no_functions()
    ensures
        terminators_across(Seq::<Seq<Code>>::empty()) == 0,
        terminators_in(Seq::<Code>::empty()) == 0,
{
    reveal(Seq::filter);
    assert(Seq::<Seq<Code>>::empty().flatten() =~= Seq::<Code>::empty());
}

/// The count of two groups of functions together is the sum of the counts of
/// the groups.
pub proof fn lemma_terminators_across_concat(front: Seq<Seq<Code>>, back: Seq<Seq<Code>>)
    ensures
        terminators_across(front + back) == terminators_across(front) + terminators_across(back),
{
    lemma_flatten_concat(front, back);
    lemma_terminators_in_concat(front.flatten(), back.flatten());
}

/// A function without instructions contributes nothing, wherever it stands
/// among the others.
pub proof fn lemma_empty_function_contributes_nothing(functions: Seq<Seq<Code>>, at: int)
    requires
        0 <= at <= functions.len(),
    ensures
        terminators_across(functions.insert(at, Seq::empty())) == terminators_across(functions),
{
    let front = functions.subrange(0, at);
    let back = functions.subrange(at, functions.len() as int);
    lemma_no_functions();
    lemma_terminators_across_push(front, Seq::empty());
    lemma_terminators_across_concat(front.push(Seq::empty()), back);
    lemma_terminators_across_concat(front, back);
    assert(front + back =~= functions);
}

/// The order of the functions does not matter: two programs that hold the
/// same function bodies, each as often as the other, have the same count.
pub proof fn lemma_order_of_functions_is_irrelevant(a: Seq<Seq<Code>>, b: Seq<Seq<Code>>)
    requires
        a.to_multiset() == b.to_multiset(),
    ensures
        terminators_across(a) == terminators_across(b),
    decreases a.len(),
{
    a.to_multiset_ensures();
    b.to_multiset_ensures();
    if a.len() == 0 {
        assert(a =~= b);
    } else {
        let body = a.last();
        assert(a.contains(body));
        assert(b.to_multiset().count(body) > 0);
        assert(b.contains(body));
        let k = choose|k: int| 0 <= k < b.len() && b[k] == body;
        let a_rest = a.drop_last();
        let b_rest = b.remove(k);
        assert(a_rest =~= a.remove(a.len() - 1));
        lemma_order_of_functions_is_irrelevant(a_rest, b_rest);
        assert(a =~= a_rest.push(body));
        lemma_terminators_across_push(a_rest, body);
        let front = b.subrange(0, k);
        let back = b.subrange(k + 1, b.len() as int);
        assert(b =~= front.push(body) + back);
        assert(b_rest =~= front + back);
        lemma_terminators_across_push(front, body);
        lemma_terminators_across_concat(front.push(body), back);
        lemma_terminators_across_concat(front, back);
    }
}

} // verus!
