//! A fixed-capacity circular buffer holding two parallel channels of samples.
use vstd::prelude::*;

verus! {

/// The cursor position that follows `idx` in a buffer of capacity `cap`.
pub open spec fn next_index(idx: nat, cap: nat) -> nat {
    if idx + 1 >= cap {
        0
    } else {
        idx + 1
    }
}

/// Whether stepping on from `idx` completes a full cycle of a buffer of capacity `cap`.
pub open spec fn wraps(idx: nat, cap: nat) -> bool {
    idx + 1 >= cap
}

/// Where the cursor of a fresh buffer of capacity `cap` stands after `n` writes.
pub open spec fn cursor_after(n: nat, cap: nat) -> nat
    decreases n,
{
    if n == 0 {
        0
    } else {
        next_index(cursor_after((n - 1) as nat, cap), cap)
    }
}

/// Stepping the cursor on agrees with adding one modulo the capacity.
proof fn lemma_next_index_mod(m: nat, cap: nat)
    requires
        cap > 0,
    ensures
        (m + 1) % cap == next_index(m % cap, cap),
{
    vstd::arithmetic::div_mod::lemma_add_mod_noop(m as int, 1, cap as int);
    vstd::arithmetic::div_mod::lemma_mod_bound(m as int, cap as int);
    if cap > 1 {
        vstd::arithmetic::div_mod::lemma_small_mod(1, cap);
        if m % cap + 1 < cap {
            vstd::arithmetic::div_mod::lemma_small_mod((m % cap + 1) as nat, cap);
        } else {
            vstd::arithmetic::div_mod::lemma_mod_self_0(cap as int);
        }
    } else {
        vstd::arithmetic::div_mod::lemma_mod_self_0(1);
    }
}

/// From a fresh buffer of capacity `cap`, the cursor after `n` writes is `n mod cap`,
/// and write number `n` (counted from zero) reports a completed cycle exactly when
/// `(n + 1) mod cap == 0`.
pub proof fn lemma_writes_cursor(n: nat, cap: nat)
    requires
        cap > 0,
    ensures
        cursor_after(n, cap) == n % cap,
        wraps(cursor_after(n, cap), cap) <==> (n + 1) % cap == 0,
    decreases n,
{
    if n > 0 {
        lemma_writes_cursor((n - 1) as nat, cap);
        lemma_next_index_mod((n - 1) as nat, cap);
    } else {
        vstd::arithmetic::div_mod::lemma_small_mod(0, cap);
    }
    lemma_next_index_mod(n, cap);
}

/// Two channels of `LEN` samples each, with a shared read/write cursor.
///
/// Samples are stored verbatim: the buffer never inspects them.
#[derive(Clone)]
pub struct Buffers<T, const LEN: usize> {
    pub r: [T; LEN],
    pub l: [T; LEN],
    pub idx: usize,
}

impl<T: Copy, const LEN: usize> Buffers<T, LEN> {
    /// The cursor is a valid index into both channels.
    pub open spec fn wf(&self) -> bool {
        self.idx < LEN
    }

    /// The left and right samples stored at history position `i`, taken modulo the capacity.
    pub open spec fn slot(&self, i: nat) -> (T, T) {
        (self.l@[(i % (LEN as nat)) as int], self.r@[(i % (LEN as nat)) as int])
    }

    /// The left and right samples under the cursor.
    pub open spec fn current(&self) -> (T, T) {
        (self.l@[self.idx as int], self.r@[self.idx as int])
    }

    /// Reading history position `i` and position `i + LEN` gives the same pair.
    pub proof fn lemma_slot_period(self, i: nat)
        requires
            self.wf(),
        ensures
            self.slot(i) == self.slot(i + LEN as nat),
    {
        vstd::arithmetic::div_mod::lemma_mod_add_multiples_vanish(i as int, LEN as int);
    }

    /// A run of writes from a buffer whose cursor is at the start: `states[k + 1]` is what
    /// `write_advance` leaves after being called on `states[k]` and returning `flags[k]`.
    /// After `n` writes the cursor stands at `n mod LEN`, and write `k` reports a completed
    /// cycle exactly when `(k + 1) mod LEN == 0`.
    pub proof fn lemma_write_run(states: Seq<Self>, flags: Seq<bool>)
        requires
            LEN > 0,
            states.len() == flags.len() + 1,
            states[0].idx == 0,
            forall|k: int|
                #![trigger flags[k]]
                0 <= k < flags.len() ==> states[k + 1].idx == next_index(
                    states[k].idx as nat,
                    LEN as nat,
                ) && flags[k] == wraps(states[k].idx as nat, LEN as nat),
        ensures
            forall|k: int| 0 <= k < states.len() ==> states[k].idx == k % (LEN as int),
            forall|k: int| 0 <= k < flags.len() ==> (flags[k] <==> (k + 1) % (LEN as int) == 0),
    {
        assert forall|j: int| 0 <= j < flags.len() implies #[trigger] states[j + 1].idx
            == next_index(states[j].idx as nat, LEN as nat) by {
            let _ = flags[j];
        }
        assert forall|k: int| 0 <= k < states.len() implies states[k].idx == cursor_after(
            k as nat,
            LEN as nat,
        ) by {
            Self::lemma_run_prefix(states, flags, k as nat);
        }
        assert forall|k: int| 0 <= k < states.len() implies states[k].idx == k % (LEN as int) by {
            lemma_writes_cursor(k as nat, LEN as nat);
        }
        assert forall|k: int| 0 <= k < flags.len() implies (flags[k] <==> (k + 1) % (LEN as int)
            == 0) by {
            lemma_writes_cursor(k as nat, LEN as nat);
        }
    }

    proof fn lemma_run_prefix(states: Seq<Self>, flags: Seq<bool>, k: nat)
        requires
            states.len() == flags.len() + 1,
            states[0].idx == 0,
            forall|j: int|
                #![trigger states[j + 1]]
                0 <= j < flags.len() ==> states[j + 1].idx == next_index(
                    states[j].idx as nat,
                    LEN as nat,
                ),
            k < states.len(),
        ensures
            states[k as int].idx == cursor_after(k, LEN as nat),
        decreases k,
    {
        if k > 0 {
            let j = k - 1;
            assert(states[j + 1].idx == next_index(states[j].idx as nat, LEN as nat));
            Self::lemma_run_prefix(states, flags, (k - 1) as nat);
        }
    }

    /// A buffer whose slots all hold `T`'s default value, with the cursor at the start.
    pub fn new() -> (b: Self)
        where T: Default,
        ensures
            b.idx == 0,
            b.l@.len() == LEN,
            b.r@.len() == LEN,
            forall|i: int| 0 <= i < LEN ==> b.l@[i] == b.l@[0] && b.r@[i] == b.l@[0],
            forall|i: int| 0 <= i < LEN ==> call_ensures(T::default, (), b.l@[i]),
    {
        let zero = T::default();
        Buffers {
            l: vstd::array::array_fill_for_copy_types(zero),
            r: vstd::array::array_fill_for_copy_types(zero),
            idx: 0,
        }
    }

    /// A buffer holding the given channels, with the cursor at the start.
    pub fn from(l: [T; LEN], r: [T; LEN]) -> (b: Self)
        ensures
            b.l == l,
            b.r == r,
            b.idx == 0,
    {
        Buffers { l, r, idx: 0 }
    }

    /// Steps the cursor on by one, back to the start after the last slot.
    /// Returns whether the cursor wrapped.
    fn advance(&mut self) -> (filled: bool)
        requires
            old(self).wf(),
        ensures
            final(self).l == old(self).l,
            final(self).r == old(self).r,
            final(self).idx == next_index(old(self).idx as nat, LEN as nat),
            filled == wraps(old(self).idx as nat, LEN as nat),
            final(self).wf(),
    {
        self.idx = self.idx + 1;
        if self.idx >= LEN {
            self.idx = 0;
            true
        } else {
            false
        }
    }

    /// Stores the pair under the cursor, then steps the cursor on.
    /// Returns whether this write completed a full cycle of the buffer.
    pub fn write_advance(&mut self, l: T, r: T) -> (filled: bool)
        requires
            old(self).wf(),
        ensures
            final(self).l@ == old(self).l@.update(old(self).idx as int, l),
            final(self).r@ == old(self).r@.update(old(self).idx as int, r),
            final(self).idx == next_index(old(self).idx as nat, LEN as nat),
            filled == wraps(old(self).idx as nat, LEN as nat),
            final(self).wf(),
    {
        let i = self.idx;
        self.l[i] = l;
        self.r[i] = r;
        self.advance()
    }

    /// Returns the pair under the cursor, then steps the cursor on; the flag
    /// says whether this read completed a full cycle of the buffer.
    pub fn read_advance(&mut self) -> (res: (T, T, bool))
        requires
            old(self).wf(),
        ensures
            (res.0, res.1) == old(self).current(),
            res.2 == wraps(old(self).idx as nat, LEN as nat),
            final(self).l == old(self).l,
            final(self).r == old(self).r,
            final(self).idx == next_index(old(self).idx as nat, LEN as nat),
            final(self).wf(),
    {
        let l = self.l[self.idx];
        let r = self.r[self.idx];
        let filled = self.advance();
        (l, r, filled)
    }

    /// The pair under the cursor, leaving the cursor where it is.
    pub fn read(&self) -> (res: (T, T))
        requires
            self.wf(),
        ensures
            res == self.current(),
    {
        (self.l[self.idx], self.r[self.idx])
    }

    /// The pair at position `idx` modulo the capacity, whatever the cursor.
    pub fn read_at(&self, idx: usize) -> (res: (T, T))
        requires
            self.wf(),
        ensures
            res == self.slot(idx as nat),
    {
        let i = idx % LEN;
        (self.l[i], self.r[i])
    }

    /// Moves the cursor back to the start; the stored samples are kept.
    pub fn reset(&mut self)
        ensures
            final(self).idx == 0,
            final(self).l == old(self).l,
            final(self).r == old(self).r,
    {
        self.idx = 0;
    }
}

} // verus!
