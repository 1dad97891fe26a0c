use vstd::prelude::*;
use crate::helpers::{draws, run, step, Helper};
use rand::XorShiftRng;
use crate::source::{seeded_generator, RandomSource};

verus! {

/// Determinism: two passes whose sources were seeded with the same words, and
/// that make the same helper calls in the same order, produce identical
/// results and leave their generators in the same state.
pub proof fn lemma_same_seed_same_results(
    seed: [u32; 4],
    first: RandomSource,
    second: RandomSource,
    calls: Seq<(Helper, Option<u64>)>,
)
    requires
        first.state() == seeded_generator(seed@),
        second.state() == seeded_generator(seed@),
    ensures
        run(first.state(), calls) == run(second.state(), calls),
{
}

/// A call that draws nothing (a `range`, or a call with a rejected argument)
/// leaves the generator as it found it.
pub proof fn lemma_non_drawing_call_keeps_state(h: Helper, g: XorShiftRng, arg: Option<u64>)
    requires
        !draws(h, arg),
    ensures
        step(h, g, arg).1 == g,
{
}

/// The random values drawn depend only on the calls that draw: taking a call
/// that draws nothing out of a pass leaves every other result, and the final
/// generator state, unchanged. So data that only steers `range` calls, or
/// arguments that are rejected, do not move the draws of the other calls.
pub proof fn lemma_non_drawing_call_removable(
    g: XorShiftRng,
    calls: Seq<(Helper, Option<u64>)>,
    i: int,
)
    requires
        0 <= i < calls.len(),
        !draws(calls[i].0, calls[i].1),
    ensures
        run(g, calls.remove(i)).0 == run(g, calls).0.remove(i),
        run(g, calls.remove(i)).1 == run(g, calls).1,
    decreases calls.len(),
{
    let last = calls.len() - 1;
    let (outs, g1) = run(g, calls.drop_last());
    lemma_run_len(g, calls.drop_last());
    lemma_run_len(g, calls);
    if i == last {
        assert(calls.remove(i) =~= calls.drop_last());
        lemma_non_drawing_call_keeps_state(calls[i].0, g1, calls[i].1);
        assert(run(g, calls).0.remove(i) =~= outs);
    } else {
        let shorter = calls.remove(i);
        assert(shorter.drop_last() =~= calls.drop_last().remove(i));
        assert(shorter.last() == calls.last());
        lemma_non_drawing_call_removable(g, calls.drop_last(), i);
        lemma_run_len(g, shorter);
        assert(run(g, shorter).0 =~= run(g, calls).0.remove(i));
    }
}

proof fn lemma_run_len(g: XorShiftRng, calls: Seq<(Helper, Option<u64>)>)
    ensures
        run(g, calls).0.len() == calls.len(),
    decreases calls.len(),
{
    if calls.len() > 0 {
        lemma_run_len(g, calls.drop_last());
    }
}

/// Results are produced in document order: the first `k` results of a pass
/// are those of its first `k` calls alone, whatever calls follow.
pub proof fn lemma_results_of_prefix(
    g: XorShiftRng,
    calls: Seq<(Helper, Option<u64>)>,
    k: int,
)
    requires
        0 <= k <= calls.len(),
    ensures
        run(g, calls.take(k)).0 == run(g, calls).0.take(k),
    decreases calls.len(),
{
    lemma_run_len(g, calls);
    if calls.len() > 0 {
        lemma_run_len(g, calls.drop_last());
        if k == calls.len() {
            assert(calls.take(k) =~= calls);
            assert(run(g, calls).0.take(k) =~= run(g, calls).0);
        } else {
            assert(calls.take(k) =~= calls.drop_last().take(k));
            lemma_results_of_prefix(g, calls.drop_last(), k);
            assert(run(g, calls).0.take(k) =~= run(g, calls.drop_last()).0.take(k));
        }
    } else {
        assert(calls.take(k) =~= calls);
    }
}

} // verus!
