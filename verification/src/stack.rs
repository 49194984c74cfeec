//! A fixed capacity stack that handles over- and underflow without failing.
use vstd::prelude::*;

verus! {

/// What a stack of capacity `cap` holds after `value` is pushed onto `s`.
///
/// Below capacity the value is appended; at capacity the oldest (bottom)
/// element is discarded to make room.
pub open spec fn bounded_push<T>(s: Seq<T>, cap: nat, value: T) -> Seq<T> {
    if s.len() < cap {
        s.push(value)
    } else {
        s.drop_first().push(value)
    }
}

/// What a stack holds after popping: the top element is removed, an empty
/// stack stays empty.
pub open spec fn popped<T>(s: Seq<T>) -> Seq<T> {
    if s.len() == 0 {
        s
    } else {
        s.drop_last()
    }
}

/// The element `depth` places below the top (`0` is the top).
pub open spec fn from_top<T>(s: Seq<T>, depth: int) -> T {
    s[s.len() - 1 - depth]
}

/// After a push the pushed value is on top and every element that stays is
/// one place further from the top; below capacity nothing is lost.
pub proof fn law_push_shifts_elements_down<T>(s: Seq<T>, cap: nat, value: T, depth: int)
    requires
        0 < cap,
        s.len() <= cap,
        0 <= depth,
    ensures
        from_top(bounded_push(s, cap, value), 0) == value,
        depth < s.len() && (s.len() < cap || depth < s.len() - 1) ==> from_top(
            bounded_push(s, cap, value),
            depth + 1,
        ) == from_top(s, depth),
        s.len() < cap ==> bounded_push(s, cap, value).len() == s.len() + 1,
{
}

/// What a stack of capacity `cap` holds after each value of `xs` is pushed
/// onto `s` in order.
pub open spec fn push_all<T>(s: Seq<T>, cap: nat, xs: Seq<T>) -> Seq<T>
    decreases xs.len(),
{
    if xs.len() == 0 {
        s
    } else {
        bounded_push(push_all(s, cap, xs.drop_last()), cap, xs.last())
    }
}

/// A pushed value is on top, and the stack grows by one up to its capacity.
pub proof fn law_push_puts_value_on_top<T>(s: Seq<T>, cap: nat, value: T)
    requires
        0 < cap,
        s.len() <= cap,
    ensures
        bounded_push(s, cap, value).last() == value,
        bounded_push(s, cap, value).len() == if s.len() < cap {
            s.len() + 1
        } else {
            cap
        },
{
}

/// Below capacity, popping undoes a push.
pub proof fn law_pop_undoes_push<T>(s: Seq<T>, cap: nat, value: T)
    requires
        s.len() < cap,
    ensures
        popped(bounded_push(s, cap, value)) == s,
{
    assert(popped(bounded_push(s, cap, value)) =~= s);
}

/// At capacity, a push discards the bottom element and keeps the others in order.
pub proof fn law_push_at_capacity_drops_bottom<T>(s: Seq<T>, cap: nat, value: T)
    requires
        0 < cap,
        s.len() == cap,
    ensures
        popped(bounded_push(s, cap, value)) == s.drop_first(),
{
    assert(popped(bounded_push(s, cap, value)) =~= s.drop_first());
}

/// After pushing any number of values onto an empty stack, it holds the last
/// `cap` of them (all of them if there are no more than `cap`), oldest first.
pub proof fn law_keeps_most_recent<T>(cap: nat, xs: Seq<T>)
    requires
        0 < cap,
    ensures
        push_all(Seq::empty(), cap, xs) == if xs.len() <= cap {
            xs
        } else {
            xs.skip(xs.len() - cap)
        },
    decreases xs.len(),
{
    if xs.len() > 0 {
        let front = xs.drop_last();
        law_keeps_most_recent(cap, front);
        if xs.len() <= cap {
            assert(front.push(xs.last()) =~= xs);
        } else if front.len() <= cap {
            assert(front.drop_first().push(xs.last()) =~= xs.skip(xs.len() - cap));
        } else {
            assert(front.skip(front.len() - cap).drop_first().push(xs.last()) =~= xs.skip(
                xs.len() - cap,
            ));
        }
    }
}

/// Whether `r` is a value that `T::default()` returns.
pub open spec fn is_default<T: Default>(r: T) -> bool {
    call_ensures(T::default, (), r)
}

/// Represents a stack with a fixed size set by `N`.
///
/// Overflowing the stack drops the bottom element.
/// This means that arbitrarily many elements can be pushed
/// but only the last `N` elements can be popped back off.
/// Trying to pop from an empty stack returns `T::default()`.
///
/// The elements live in a ring buffer: `next_slot` is the slot the next push
/// writes, and the `depth` slots before it (cyclically) hold the elements,
/// the most recent one directly before `next_slot`.
#[derive(Debug)]
pub struct Stack<T, const N: usize> {
    values: [T; N],
    next_slot: usize,
    depth: usize,
}

impl<T, const N: usize> Stack<T, N> {
    #[verifier::type_invariant]
    spec fn well_formed(self) -> bool {
        &&& self.depth <= N
        &&& (N > 0 ==> self.next_slot < N)
        &&& (N == 0 ==> self.next_slot == 0)
    }

    /// Index into `values` of the `k`-th element counted from the bottom.
    spec fn slot_of(self, k: int) -> int {
        let raw = self.next_slot + N - self.depth + k;
        if raw < N {
            raw
        } else {
            raw - N
        }
    }
}

impl<T, const N: usize> View for Stack<T, N> {
    type V = Seq<T>;

    /// The elements of the stack from the bottom (oldest) to the top (newest).
    closed spec fn view(&self) -> Seq<T> {
        Seq::new(self.depth as nat, |k: int| self.values@[self.slot_of(k)])
    }
}

impl<T: Copy, const N: usize> Clone for Stack<T, N> {
    fn clone(&self) -> (c: Self)
        ensures
            c@ == self@,
    {
        proof {
            use_type_invariant(self);
        }
        Stack { values: self.values, next_slot: self.next_slot, depth: self.depth }
    }
}

impl<T: Default + Copy, const N: usize> Default for Stack<T, N> {
    fn default() -> (s: Self)
        ensures
            s@ == Seq::<T>::empty(),
    {
        let fill = T::default();
        let s = Stack { values: vstd::array::array_fill_for_copy_types::<T, N>(fill), next_slot: 0, depth: 0 };
        assert(s@ =~= Seq::<T>::empty());
        s
    }
}

impl<T: Default + Copy, const N: usize> Stack<T, N> {
    /// Number of elements that can be popped before the stack is empty.
    pub fn len(&self) -> (r: usize)
        ensures
            r == self@.len(),
            r <= N,
    {
        proof {
            use_type_invariant(self);
        }
        self.depth
    }

    /// Push `value` on top; at capacity the bottom element is discarded.
    pub fn push(&mut self, value: T)
        requires
            N > 0,
        ensures
            final(self)@ == bounded_push(old(self)@, N as nat, value),
            final(self)@.len() <= N,
    {
        proof {
            use_type_invariant(&*self);
        }
        let ghost before = self@;
        let slot = self.next_slot;
        self.values[slot] = value;
        if self.depth < N {
            self.depth = self.depth + 1;
        }
        if slot + 1 == N {
            self.next_slot = 0;
        } else {
            self.next_slot = slot + 1;
        }
        proof {
            let after = self@;
            let expected = bounded_push(before, N as nat, value);
            assert(after.len() == expected.len());
            assert forall|k: int| 0 <= k < after.len() implies after[k] == expected[k] by {
                if before.len() < N {
                    if k < before.len() {
                        assert(after[k] == before[k]);
                    }
                } else {
                    if k < before.len() - 1 {
                        assert(after[k] == before[k + 1]);
                    }
                }
            }
            assert(after =~= expected);
        }
    }

    /// Remove and return the top element, or `T::default()` if the stack is empty.
    pub fn pop(&mut self) -> (r: T)
        ensures
            final(self)@ == popped(old(self)@),
            old(self)@.len() > 0 ==> r == from_top(old(self)@, 0),
            old(self)@.len() == 0 ==> is_default(r),
    {
        proof {
            use_type_invariant(&*self);
        }
        if self.depth == 0 {
            return T::default();
        }
        let ghost before = self@;
        let slot = if self.next_slot == 0 {
            N - 1
        } else {
            self.next_slot - 1
        };
        self.next_slot = slot;
        self.depth = self.depth - 1;
        proof {
            let after = self@;
            assert forall|k: int| 0 <= k < after.len() implies after[k] == before[k] by {}
            assert(after =~= before.drop_last());
        }
        self.values[slot]
    }

    /// The top element, or `T::default()` if the stack is empty.
    pub fn peek(&self) -> (r: T)
        ensures
            self@.len() > 0 ==> r == from_top(self@, 0),
            self@.len() == 0 ==> is_default(r),
    {
        proof {
            use_type_invariant(self);
        }
        if self.depth == 0 {
            return T::default();
        }
        let slot = if self.next_slot == 0 {
            N - 1
        } else {
            self.next_slot - 1
        };
        self.values[slot]
    }

    /// The element `depth` places below the top, or `T::default()` if the
    /// stack does not hold that many elements.
    pub fn peek_at(&self, depth: usize) -> (r: T)
        ensures
            depth < self@.len() ==> r == from_top(self@, depth as int),
            depth >= self@.len() ==> is_default(r),
    {
        proof {
            use_type_invariant(self);
        }
        if depth >= self.depth {
            return T::default();
        }
        let back = depth + 1;
        let slot = if self.next_slot >= back {
            self.next_slot - back
        } else {
            self.next_slot + (N - back)
        };
        self.values[slot]
    }

    /// The elements from the bottom (oldest) to the top (newest).
    pub fn to_vec(&self) -> (v: Vec<T>)
        ensures
            v@ == self@,
    {
        proof {
            use_type_invariant(self);
        }
        let mut v: Vec<T> = Vec::new();
        let mut k: usize = 0;
        while k < self.depth
            invariant
                k <= self.depth,
                self.depth <= N,
                N > 0 ==> self.next_slot < N,
                v@ == self@.take(k as int),
            decreases self.depth - k,
        {
            let back = self.depth - k;
            let slot = if self.next_slot >= back {
                self.next_slot - back
            } else {
                self.next_slot + (N - back)
            };
            v.push(self.values[slot]);
            k = k + 1;
            assert(v@ =~= self@.take(k as int));
        }
        assert(self@.take(self.depth as int) =~= self@);
        v
    }
}

} // verus!
