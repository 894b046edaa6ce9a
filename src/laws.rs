use crate::fibonacci::{fib, term, window_of, CursorView};
use vstd::prelude::*;

verus! {

/// The state after `n` advances from `v`.
pub open spec fn advanced_times(v: CursorView, n: nat) -> CursorView
    decreases n,
{
    if n == 0 {
        v
    } else {
        advanced_times(v, (n - 1) as nat).advanced()
    }
}

/// The state after the moves in `moves` from `v`, in order: `true` for an
/// advance, `false` for a retreat.
pub open spec fn run(v: CursorView, moves: Seq<bool>) -> CursorView
    decreases moves.len(),
{
    if moves.len() == 0 {
        v
    } else if moves.last() {
        run(v, moves.drop_last()).advanced()
    } else {
        run(v, moves.drop_last()).retreated()
    }
}

/// An advance keeps a state reachable.
pub proof fn lemma_advance_keeps_reachable(v: CursorView)
    requires
        v.reachable(),
    ensures
        v.advanced().reachable(),
{
}

/// A retreat keeps a state reachable.
pub proof fn lemma_retreat_keeps_reachable(v: CursorView)
    requires
        v.reachable(),
    ensures
        v.retreated().reachable(),
{
}

/// Every state that a run of moves reaches from the initial state is one of
/// the reachable states.
pub proof fn lemma_run_reachable(moves: Seq<bool>)
    ensures
        run(CursorView::initial(), moves).reachable(),
    decreases moves.len(),
{
    if moves.len() > 0 {
        lemma_run_reachable(moves.drop_last());
        let before = run(CursorView::initial(), moves.drop_last());
        lemma_advance_keeps_reachable(before);
        lemma_retreat_keeps_reachable(before);
    }
}

/// In a reachable state a peek returns the term of the current step, but in
/// the one state that a retreat from step 3 leaves: window [0, 1] at step 2.
pub proof fn lemma_peek_is_current_term(v: CursorView)
    requires
        v.reachable(),
        !(v.window.len() == 2 && v.step == 2),
    ensures
        v.peek_value() == term(v.step),
{
    reveal_with_fuel(fib, 3);
}

/// After `n` advances from a new cursor the step is `n`, and the window holds
/// as many of the first terms as fit in it.
pub proof fn lemma_advanced_times_from_start(n: nat)
    ensures
        advanced_times(CursorView::initial(), n).step == n,
        advanced_times(CursorView::initial(), n).window == window_of(
            if n < 2 {
                n + 1
            } else {
                3nat
            },
            n,
        ),
        advanced_times(CursorView::initial(), n).reachable(),
    decreases n,
{
    if n > 0 {
        lemma_advanced_times_from_start((n - 1) as nat);
        lemma_advance_keeps_reachable(advanced_times(CursorView::initial(), (n - 1) as nat));
    }
}

/// From a new cursor, the `n`-th advance returns the `n`-th term of
/// 0, 1, 1, 2, 3, 5, ..., that is `fib(n - 1)`.
pub proof fn lemma_advances_yield_fibonacci(n: nat)
    requires
        n >= 1,
    ensures
        advanced_times(CursorView::initial(), (n - 1) as nat).advance_value() == fib((n - 1) as nat),
        advanced_times(CursorView::initial(), n).step == n,
{
    lemma_advanced_times_from_start((n - 1) as nat);
    lemma_advanced_times_from_start(n);
}

/// A retreat right after an advance returns the term that was current before
/// the advance and restores the step: the two calls return the terms of steps
/// `s + 1` and `s`.
pub proof fn lemma_retreat_undoes_advance(v: CursorView)
    requires
        v.reachable(),
    ensures
        v.advance_value() == term(v.step + 1),
        v.advanced().retreat_value() == term(v.step),
        v.advanced().retreated().step == v.step,
{
}

/// At step 0 a retreat changes nothing and returns 0, however often it is
/// repeated.
pub proof fn lemma_retreat_at_floor(v: CursorView)
    requires
        v.reachable(),
        v.step == 0,
    ensures
        v.retreated() == v,
        v.retreat_value() == 0,
{
}

/// After `k` advances from a new cursor, and no retreat, a peek returns the
/// term of step `k`: 0 for `k` = 0 and `fib(k - 1)` after that.
pub proof fn lemma_peek_after_advances(k: nat)
    ensures
        advanced_times(CursorView::initial(), k).peek_value() == term(k),
{
    lemma_advanced_times_from_start(k);
    reveal_with_fuel(fib, 3);
}

/// After any run of advances and retreats from a new cursor, a peek returns
/// the term of the step that the run ends at, but where the run ends with
/// the window [0, 1] at step 2 (a retreat from step 3), where it returns 0.
pub proof fn lemma_peek_after_any_run(moves: Seq<bool>)
    requires
        !(run(CursorView::initial(), moves).window.len() == 2 && run(
            CursorView::initial(),
            moves,
        ).step == 2),
    ensures
        run(CursorView::initial(), moves).peek_value() == term(run(CursorView::initial(), moves).step),
{
    lemma_run_reachable(moves);
    lemma_peek_is_current_term(run(CursorView::initial(), moves));
}

} // verus!
