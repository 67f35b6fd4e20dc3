//! The double-ended consumption protocol, as a model, and its laws.
//!
//! The model state is the sequence of bits still live in the window.  One
//! forward step yields the front bit and drops it; one backward step
//! yields the back bit and drops it; on the empty state either step
//! yields the terminal `None` and leaves the state empty.  The iterator
//! types state their contracts with [`front_step`] and [`back_step`], so
//! the laws proved here are laws of every chain of iterator calls.

use vstd::prelude::*;

verus! {

/// One forward step: the yielded item and the state after it.
pub open spec fn front_step(s: Seq<bool>) -> (Option<bool>, Seq<bool>) {
    if s.len() == 0 {
        (None, s)
    } else {
        (Some(s[0]), s.drop_first())
    }
}

/// One backward step: the yielded item and the state after it.
pub open spec fn back_step(s: Seq<bool>) -> (Option<bool>, Seq<bool>) {
    if s.len() == 0 {
        (None, s)
    } else {
        (Some(s.last()), s.drop_last())
    }
}

/// The state left by `k` forward steps from `s`.
pub open spec fn after_front(s: Seq<bool>, k: int) -> Seq<bool>
    decreases k,
{
    if k <= 0 {
        s
    } else {
        front_step(after_front(s, k - 1)).1
    }
}

/// The bits yielded by `k` forward steps from `s`, in call order; steps
/// past exhaustion yield nothing.
pub open spec fn front_yields(s: Seq<bool>, k: int) -> Seq<bool>
    decreases k,
{
    if k <= 0 {
        Seq::empty()
    } else {
        let t = after_front(s, k - 1);
        if t.len() == 0 {
            front_yields(s, k - 1)
        } else {
            front_yields(s, k - 1).push(t[0])
        }
    }
}

/// The state left by `k` backward steps from `s`.
pub open spec fn after_back(s: Seq<bool>, k: int) -> Seq<bool>
    decreases k,
{
    if k <= 0 {
        s
    } else {
        back_step(after_back(s, k - 1)).1
    }
}

/// The bits yielded by `k` backward steps from `s`, in call order.
pub open spec fn back_yields(s: Seq<bool>, k: int) -> Seq<bool>
    decreases k,
{
    if k <= 0 {
        Seq::empty()
    } else {
        let t = after_back(s, k - 1);
        if t.len() == 0 {
            back_yields(s, k - 1)
        } else {
            back_yields(s, k - 1).push(t.last())
        }
    }
}

/// Within the window, `k` forward steps leave exactly the tail past
/// index `k`.
pub proof fn lemma_after_front_is_skip(s: Seq<bool>, k: int)
    requires
        0 <= k <= s.len(),
    ensures
        after_front(s, k) == s.skip(k),
    decreases k,
{
    if k == 0 {
        assert(after_front(s, 0) =~= s.skip(0));
    } else {
        lemma_after_front_is_skip(s, k - 1);
        assert(front_step(s.skip(k - 1)).1 =~= s.skip(k));
    }
}

/// Within the window, `k` forward steps yield exactly the first `k`
/// bits, in order.
pub proof fn lemma_front_yields_is_take(s: Seq<bool>, k: int)
    requires
        0 <= k <= s.len(),
    ensures
        front_yields(s, k) == s.take(k),
    decreases k,
{
    if k == 0 {
        assert(front_yields(s, 0) =~= s.take(0));
    } else {
        lemma_front_yields_is_take(s, k - 1);
        lemma_after_front_is_skip(s, k - 1);
        assert(s.skip(k - 1)[0] == s[k - 1]);
        assert(s.take(k - 1).push(s[k - 1]) =~= s.take(k));
    }
}

/// Within the window, `k` backward steps leave exactly the first
/// `len - k` bits.
pub proof fn lemma_after_back_is_take(s: Seq<bool>, k: int)
    requires
        0 <= k <= s.len(),
    ensures
        after_back(s, k) == s.take(s.len() - k),
    decreases k,
{
    if k == 0 {
        assert(after_back(s, 0) =~= s.take(s.len() as int));
    } else {
        lemma_after_back_is_take(s, k - 1);
        assert(back_step(s.take(s.len() - (k - 1))).1 =~= s.take(s.len() - k));
    }
}

/// Within the window, `k` backward steps yield the last `k` bits, from
/// the back inwards: the yield in call order is the reverse of the tail.
pub proof fn lemma_back_yields_is_reversed_tail(s: Seq<bool>, k: int)
    requires
        0 <= k <= s.len(),
    ensures
        back_yields(s, k) == s.skip(s.len() - k).reverse(),
    decreases k,
{
    if k == 0 {
        assert(back_yields(s, 0) =~= s.skip(s.len() as int).reverse());
    } else {
        lemma_back_yields_is_reversed_tail(s, k - 1);
        lemma_after_back_is_take(s, k - 1);
        let t = s.take(s.len() - (k - 1));
        assert(t.last() == s[s.len() - k]);
        assert(s.skip(s.len() - (k - 1)).reverse().push(s[s.len() - k]) =~= s.skip(
            s.len() - k,
        ).reverse());
    }
}

/// Fused exhaustion law: from a window of `L` bits, `L` forward steps
/// yield exactly those bits in order and leave the empty state, and every
/// step from the `L`-th on yields the terminal `None` and leaves the
/// state empty.
pub proof fn lemma_front_exhaustion(s: Seq<bool>, j: int)
    requires
        j >= s.len(),
    ensures
        front_yields(s, s.len() as int) == s,
        after_front(s, j).len() == 0,
        front_step(after_front(s, j)).0 is None,
        front_yields(s, j) == s,
    decreases j,
{
    lemma_front_yields_is_take(s, s.len() as int);
    assert(s.take(s.len() as int) =~= s);
    if j == s.len() {
        lemma_after_front_is_skip(s, j);
    } else {
        lemma_front_exhaustion(s, j - 1);
    }
}

/// Front/back order independence: `k` forward steps followed by draining
/// the remainder backward touch each bit once, and the forward yield
/// concatenated with the backward yield put back in logical order is
/// exactly the starting window.
pub proof fn lemma_front_back_independence(s: Seq<bool>, k: int)
    requires
        0 <= k <= s.len(),
    ensures
        front_yields(s, k) + back_yields(after_front(s, k), s.len() - k).reverse() == s,
        after_back(after_front(s, k), s.len() - k).len() == 0,
{
    lemma_front_yields_is_take(s, k);
    lemma_after_front_is_skip(s, k);
    let rest = s.skip(k);
    lemma_back_yields_is_reversed_tail(rest, rest.len() as int);
    lemma_after_back_is_take(rest, rest.len() as int);
    assert(rest.skip(0) =~= rest);
    assert(rest.reverse().reverse() =~= rest);
    assert(s.take(k) + rest =~= s);
}

/// The bounded-skip law: within the window, `nth(n)` yields the bit that
/// the `(n+1)`-th forward step yields and leaves the state that `n+1`
/// forward steps leave; past the window it leaves the empty state, from
/// which every step yields the terminal `None`.
pub proof fn lemma_nth_is_repeated_next(s: Seq<bool>, n: int)
    requires
        0 <= n,
    ensures
        n < s.len() ==> front_yields(s, n + 1).last() == s[n] && after_front(s, n + 1) == s.skip(
            n + 1,
        ),
        n >= s.len() ==> after_front(s, n + 1).len() == 0 && front_step(
            after_front(s, n + 1),
        ).0 is None,
{
    if n < s.len() {
        lemma_front_yields_is_take(s, n + 1);
        lemma_after_front_is_skip(s, n + 1);
        assert(s.take(n + 1).last() == s[n]);
    } else {
        lemma_front_exhaustion(s, n + 1);
    }
}

} // verus!
