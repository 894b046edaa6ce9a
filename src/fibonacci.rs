use crate::natural::Natural;
use vstd::prelude::*;

verus! {

/// The Fibonacci numbers: 0, 1, 1, 2, 3, 5, ...
pub open spec fn fib(n: nat) -> nat
    decreases n,
{
    if n == 0 {
        0
    } else if n == 1 {
        1
    } else {
        fib((n - 1) as nat) + fib((n - 2) as nat)
    }
}

/// The term that is current once `step` advances have been applied: the
/// `step`-th term of 0, 1, 1, 2, 3, ..., and 0 before any advance.
pub open spec fn term(step: nat) -> nat {
    if step == 0 {
        0
    } else {
        fib((step - 1) as nat)
    }
}

/// What a cursor is, seen from outside: its trailing window of terms and its
/// step counter.
pub struct CursorView {
    pub window: Seq<nat>,
    pub step: nat,
}

/// The window of the given length that a cursor holds at `step`.
pub open spec fn window_of(len: nat, step: nat) -> Seq<nat> {
    if len == 1 {
        seq![0]
    } else if len == 2 {
        seq![0, 1]
    } else if step < 3 {
        seq![0, 1, 1]
    } else {
        seq![fib((step - 3) as nat), fib((step - 2) as nat), fib((step - 1) as nat)]
    }
}

impl CursorView {
    pub open spec fn initial() -> CursorView {
        CursorView { window: seq![0], step: 0 }
    }

    /// The states that advances and retreats can reach from the initial one:
    /// the window is filled one term per advance up to three terms, and a
    /// retreat through the first steps empties it again.
    pub open spec fn reachable(self) -> bool {
        let len = self.window.len();
        &&& (len == 1 && self.step <= 1) || (len == 2 && 1 <= self.step <= 2) || (len == 3
            && self.step >= 2)
        &&& self.window == window_of(len, self.step)
    }

    pub open spec fn advanced(self) -> CursorView {
        let len = self.window.len();
        let new_len = if len < 3 {
            len + 1
        } else {
            3
        };
        CursorView { window: window_of(new_len, self.step + 1), step: self.step + 1 }
    }

    pub open spec fn retreated(self) -> CursorView {
        let len = self.window.len();
        if self.step == 0 {
            self
        } else {
            let new_len: nat = if len == 3 && self.step > 3 {
                3
            } else if len == 3 {
                2
            } else {
                1
            };
            CursorView { window: window_of(new_len, (self.step - 1) as nat), step: (self.step - 1) as nat }
        }
    }

    /// What an advance from this state returns.
    pub open spec fn advance_value(self) -> nat {
        term(self.step + 1)
    }

    /// What a retreat from this state returns.
    pub open spec fn retreat_value(self) -> nat {
        term(self.retreated().step)
    }

    /// What a peek at this state returns: the newest term of the window,
    /// but for the two states in which the window runs ahead of the step.
    pub open spec fn peek_value(self) -> nat {
        if self.window.len() == 2 {
            0
        } else if self.window.len() == 3 && self.step == 2 {
            1
        } else {
            self.window.last()
        }
    }
}

/// Each Fibonacci number is at least the one before it.
pub proof fn lemma_fib_monotone(n: nat)
    ensures
        fib(n) <= fib(n + 1),
    decreases n,
{
    if n >= 2 {
        lemma_fib_monotone((n - 1) as nat);
    }
}

/// Every Fibonacci number after the first is positive.
pub proof fn lemma_fib_positive(n: nat)
    requires
        n >= 1,
    ensures
        fib(n) >= 1,
    decreases n,
{
    if n == 2 {
        assert(fib(2) == fib(1) + fib(0));
    } else if n >= 3 {
        lemma_fib_positive((n - 1) as nat);
    }
}

/// A cursor over the Fibonacci sequence that keeps only the last three terms.
#[derive(Debug)]
pub struct Fibonacci {
    full: Vec<Natural>,
    count: usize,
}

impl View for Fibonacci {
    type V = CursorView;

    closed spec fn view(&self) -> CursorView {
        CursorView { window: self.full@.map_values(|x: Natural| x.value()), step: self.count as nat }
    }
}

impl Fibonacci {
    pub open spec fn wf(&self) -> bool {
        self@.reachable()
    }

    pub fn new() -> (r: Fibonacci)
        ensures
            r.wf(),
            r@ == CursorView::initial(),
    {
        let r = Fibonacci { full: vec![Natural::zero()], count: 0 };
        assert(r@.window =~= seq![0nat]);
        r
    }

    /// How many advances, less retreats, have been applied.
    pub fn step(&self) -> (r: usize)
        ensures
            r == self@.step,
    {
        self.count
    }

    /// Advances the cursor by one step and returns the term that is now
    /// current: 0, 1, 1, 2, 3, 5, ... on successive calls from a new cursor.
    pub fn next(&mut self) -> (r: Option<Natural>)
        requires
            old(self).wf(),
            old(self)@.step < usize::MAX,
        ensures
            final(self).wf(),
            final(self)@ == old(self)@.advanced(),
            r.is_some() && r.unwrap().value() == old(self)@.advance_value(),
    {
        proof {
            reveal_with_fuel(fib, 3);
        }
        self.count = self.count + 1;
        let len = self.full.len();
        if len == 1 {
            // The seed 0 gets its successor 1; the first advance still
            // returns 0, and one that comes back here after retreats returns 1.
            assert(self.full@[0].value() == old(self)@.window[0]);
            self.full.push(Natural::one());
            assert(self@.window =~= seq![0nat, 1nat]);
            if self.count == 1 {
                Some(Natural::zero())
            } else {
                Some(Natural::one())
            }
        } else if len == 2 {
            assert(self.full@[0].value() == old(self)@.window[0]);
            assert(self.full@[1].value() == old(self)@.window[1]);
            let sum = self.full[0].plus(&self.full[1]);
            self.full.push(sum.duplicate());
            assert(self@.window =~= seq![0nat, 1nat, 1nat]);
            Some(sum)
        } else if len == 3 && self.count == 3 {
            // The window [0, 1, 1] already ends in the term of step 3.
            assert(self@.window =~= old(self)@.window);
            assert(self@.window =~= window_of(3, 3));
            Some(Natural::one())
        } else {
            assert(self.full@[1].value() == old(self)@.window[1]);
            assert(self.full@[2].value() == old(self)@.window[2]);
            let older = self.full[1].duplicate();
            let newer = self.full[2].duplicate();
            let sum = older.plus(&newer);
            self.full = vec![older, newer, sum.duplicate()];
            assert(self@.window =~= old(self)@.advanced().window);
            Some(sum)
        }
    }

    /// Steps the cursor back by one step, never below step 0, and returns the
    /// term that is now current, so that a following `next` returns again the
    /// term that was current before this call.
    pub fn previous(&mut self) -> (r: Option<Natural>)
        requires
            old(self).wf(),
        ensures
            final(self).wf(),
            final(self)@ == old(self)@.retreated(),
            r.is_some() && r.unwrap().value() == old(self)@.retreat_value(),
    {
        if self.count == 0 {
            return Some(Natural::zero());
        }
        self.count = self.count - 1;
        let len = self.full.len();
        if len == 3 {
            assert(self.full@[0].value() == old(self)@.window[0]);
            assert(self.full@[1].value() == old(self)@.window[1]);
            if self.full[0].is_zero() {
                proof {
                    reveal_with_fuel(fib, 3);
                    if old(self)@.step >= 4 {
                        lemma_fib_positive((old(self)@.step - 3) as nat);
                    }
                }
                // The window [0, 1, 1] of the first steps: back to [0, 1].
                self.full = vec![Natural::zero(), Natural::one()];
                assert(self@.window =~= seq![0nat, 1nat]);
                if self.count == 1 {
                    Some(Natural::zero())
                } else {
                    Some(Natural::one())
                }
            } else {
                // The term before the window is the difference of its two
                // oldest terms.
                proof {
                    lemma_fib_monotone((self.count - 2) as nat);
                }
                let newer = self.full[1].duplicate();
                let older = self.full[0].duplicate();
                let oldest = newer.minus(&older);
                let current = newer.duplicate();
                self.full = vec![oldest, older, newer];
                assert(self@.window =~= old(self)@.retreated().window);
                Some(current)
            }
        } else if len == 2 {
            assert(self.full@[0].value() == old(self)@.window[0]);
            self.full.pop();
            assert(self@.window =~= seq![0nat]);
            Some(Natural::zero())
        } else {
            Some(Natural::zero())
        }
    }

    /// The term that is current, without moving the cursor.
    pub fn current(&self) -> (r: Option<Natural>)
        requires
            self.wf(),
        ensures
            r.is_some() && r.unwrap().value() == self@.peek_value(),
    {
        let len = self.full.len();
        if len == 2 {
            // The first advance filled the window ahead of the step.
            Some(Natural::zero())
        } else if len == 3 && self.count == 2 {
            Some(Natural::one())
        } else {
            Some(self.full[len - 1].duplicate())
        }
    }
}

} // verus!
