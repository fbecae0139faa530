//! A growable, contiguous container with ordered storage and
//! amortized-constant-time append.
//!
//! The container tracks a logical length and a reserved capacity.  The
//! capacity starts at 0 (no reservation), becomes 4 on the first growth, and
//! doubles whenever an operation needs one more slot than is available.

use vstd::prelude::*;

pub mod myiter;

verus! {

/// The reserved capacity after an operation has appended one element to a
/// container of `len` elements in a block of `cap` slots: the first growth
/// reserves 4 slots, a full block doubles, and otherwise the reservation is
/// left alone.
pub open spec fn next_capacity(len: nat, cap: nat) -> nat {
    if cap == 0 {
        4
    } else if len < cap {
        cap
    } else {
        2 * cap
    }
}

/// The reservation reached by repeatedly doubling `cap` until it holds
/// `need` elements.  A reservation of 0 never grows: doubling must start
/// from a seeded reservation.
pub open spec fn grown_capacity(cap: nat, need: nat) -> nat
    decreases (if need > cap { need - cap } else { 0 }),
{
    if cap == 0 || cap >= need {
        cap
    } else {
        grown_capacity(2 * cap, need)
    }
}

/// The reserved capacity after appending onto a container of `cap` slots
/// everything needed to hold `total` elements: an already sufficient
/// reservation is kept, and anything else doubles from its current size
/// (seeded at 4 when nothing is reserved yet) until `total` fits.
pub open spec fn appended_capacity(cap: nat, total: nat) -> nat {
    if total <= cap {
        cap
    } else {
        grown_capacity(if cap == 0 { 4 } else { cap }, total)
    }
}

/// A growable array: `length` live elements stored in order inside a block
/// reserved for `capacity` elements, with `length <= capacity`.
pub struct MyVec<T> {
    elems: Vec<T>,
    cap: usize,
}

impl<T> View for MyVec<T> {
    type V = Seq<T>;

    /// The live elements, in index order.
    closed spec fn view(&self) -> Seq<T> {
        self.elems@
    }
}

impl<T> MyVec<T> {
    /// The number of element slots currently reserved.
    pub closed spec fn spec_capacity(&self) -> nat {
        self.cap as nat
    }

    #[verifier::type_invariant]
    spec fn wf(&self) -> bool {
        self@.len() <= self.spec_capacity()
    }

    /// An empty container: no elements, no reservation.
    pub fn new() -> (v: Self)
        ensures
            v@ == Seq::<T>::empty(),
            v.spec_capacity() == 0,
    {
        Self { elems: Vec::new(), cap: 0 }
    }

    /// Reads the reserved slot count.
    pub fn capacity(&self) -> (c: usize)
        ensures
            c == self.spec_capacity(),
    {
        self.cap
    }

    /// Reads the number of live elements, which never exceed the reserved
    /// capacity.
    pub fn len(&self) -> (n: usize)
        ensures
            n == self@.len(),
            n <= self.spec_capacity(),
    {
        proof {
            use_type_invariant(self);
        }
        self.elems.len()
    }

    /// Appends `item` as the new last element, reserving 4 slots on first
    /// growth and doubling a full reservation.  Zero-size element types are
    /// rejected, and a capacity doubling must not overflow; both are
    /// contract violations.
    pub fn push(&mut self, item: T)
        requires
            vstd::layout::size_of::<T>() != 0,
            old(self)@.len() == old(self).spec_capacity() ==> old(self).spec_capacity() <= usize::MAX / 2,
        ensures
            final(self)@ == old(self)@.push(item),
            final(self).spec_capacity() == next_capacity(old(self)@.len(), old(self).spec_capacity()),
    {
        proof {
            use_type_invariant(&*self);
        }
        let mut block: Vec<T> = Vec::new();
        core::mem::swap(&mut self.elems, &mut block);
        if self.cap == 0 {
            self.cap = 4;
        } else if block.len() == self.cap {
            self.cap = self.cap * 2;
        }
        block.push(item);
        core::mem::swap(&mut self.elems, &mut block);
    }

    /// Inserts `item` at position `index`, shifting the elements at
    /// `[index, length)` one slot to the right by an element-at-a-time
    /// carry chain.  An index past the length, a zero-size element type and
    /// a capacity doubling that overflows are contract violations.
    pub fn insert(&mut self, item: T, index: usize)
        requires
            index <= old(self)@.len(),
            vstd::layout::size_of::<T>() != 0,
            old(self)@.len() == old(self).spec_capacity() ==> old(self).spec_capacity() <= usize::MAX / 2,
        ensures
            final(self)@ == old(self)@.insert(index as int, item),
            final(self).spec_capacity() == next_capacity(old(self)@.len(), old(self).spec_capacity()),
    {
        proof {
            use_type_invariant(&*self);
        }
        if self.cap == 0 {
            self.push(item);
            proof {
                assert(self@ =~= old(self)@.insert(index as int, item));
            }
            return;
        }
        let mut block: Vec<T> = Vec::new();
        core::mem::swap(&mut self.elems, &mut block);
        if block.len() == self.cap {
            self.cap = self.cap * 2;
        }
        let ghost target = old(self)@.insert(index as int, item);
        proof {
            old(self)@.insert_ensures(index as int, item);
        }
        let length = block.len();
        let mut carry = item;
        let mut j = index;
        while j < length
            invariant
                index <= j <= length,
                length == block@.len(),
                length == old(self)@.len(),
                target == old(self)@.insert(index as int, item),
                target.len() == length + 1,
                carry == target[j as int],
                forall|k: int| 0 <= k < j ==> block@[k] == target[k],
                forall|k: int| j <= k < length ==> block@[k] == old(self)@[k],
            decreases length - j,
        {
            proof {
                old(self)@.insert_ensures(index as int, item);
            }
            core::mem::swap(&mut carry, &mut block[j]);
            j = j + 1;
        }
        block.push(carry);
        proof {
            assert(block@ =~= target);
        }
        core::mem::swap(&mut self.elems, &mut block);
    }

    /// Returns a borrowed reference to the element at `index`, or nothing
    /// when the index is not below the length.
    pub fn get(&self, index: usize) -> (r: Option<&T>)
        ensures
            r == (if index < self@.len() {
                Some(&self@[index as int])
            } else {
                None::<&T>
            }),
    {
        if index >= self.elems.len() {
            return None;
        }
        Some(&self.elems[index])
    }

    /// Removes and returns the last element, or reports that the container
    /// is empty.  The reserved capacity is never shrunk.
    pub fn pop(&mut self) -> (r: Option<T>)
        ensures
            old(self)@.len() == 0 ==> r is None && final(self)@ == old(self)@,
            old(self)@.len() > 0 ==> r == Some(old(self)@.last())
                && final(self)@ == old(self)@.drop_last(),
            final(self).spec_capacity() == old(self).spec_capacity(),
    {
        proof {
            use_type_invariant(&*self);
        }
        let mut block: Vec<T> = Vec::new();
        core::mem::swap(&mut self.elems, &mut block);
        let r = block.pop();
        core::mem::swap(&mut self.elems, &mut block);
        r
    }

    /// Removes and returns the element at `index`, relocating each later
    /// element one slot to the left in ascending index order.  An index at
    /// or past the length is a contract violation.  The reserved capacity
    /// is never shrunk.
    pub fn remove(&mut self, index: usize) -> (r: T)
        requires
            index < old(self)@.len(),
        ensures
            r == old(self)@[index as int],
            final(self)@ == old(self)@.remove(index as int),
            final(self).spec_capacity() == old(self).spec_capacity(),
    {
        proof {
            use_type_invariant(&*self);
        }
        let mut block: Vec<T> = Vec::new();
        core::mem::swap(&mut self.elems, &mut block);
        let mut carry = block.pop().unwrap();
        let mut j = block.len();
        while j > index
            invariant
                index <= j <= block@.len(),
                block@.len() + 1 == old(self)@.len(),
                index < old(self)@.len(),
                carry == old(self)@[j as int],
                forall|k: int| 0 <= k < j ==> block@[k] == old(self)@[k],
                forall|k: int| j <= k < block@.len() ==> block@[k] == old(self)@[k + 1],
            decreases j,
        {
            j = j - 1;
            core::mem::swap(&mut carry, &mut block[j]);
        }
        proof {
            assert(block@ =~= old(self)@.remove(index as int));
        }
        core::mem::swap(&mut self.elems, &mut block);
        carry
    }

    /// Moves every element of `other` onto the end of `self` in order,
    /// leaving `other` empty but with its reservation intact.  `self`'s
    /// reservation doubles (seeded at 4 when nothing is reserved) until the
    /// combined length fits.  A combined length beyond the addressable
    /// limit is a contract violation.
    pub fn append(&mut self, other: &mut MyVec<T>)
        requires
            old(self)@.len() + old(other)@.len() <= usize::MAX / 2,
        ensures
            final(self)@ == old(self)@ + old(other)@,
            final(other)@ == Seq::<T>::empty(),
            final(other).spec_capacity() == old(other).spec_capacity(),
            final(self).spec_capacity() == appended_capacity(
                old(self).spec_capacity(),
                old(self)@.len() + old(other)@.len(),
            ),
    {
        proof {
            use_type_invariant(&*self);
            use_type_invariant(&*other);
        }
        let mut block: Vec<T> = Vec::new();
        let mut incoming: Vec<T> = Vec::new();
        core::mem::swap(&mut self.elems, &mut block);
        core::mem::swap(&mut other.elems, &mut incoming);
        let total = block.len() + incoming.len();
        if total > self.cap {
            let ghost seed: nat = if self.cap == 0 { 4nat } else { self.cap as nat };
            let mut new_cap: usize = if self.cap == 0 { 4 } else { self.cap };
            while new_cap < total
                invariant
                    total <= usize::MAX / 2,
                    new_cap >= 1,
                    grown_capacity(new_cap as nat, total as nat)
                        == grown_capacity(seed, total as nat),
                decreases (if total > new_cap { total - new_cap } else { 0 }),
            {
                new_cap = new_cap * 2;
            }
            self.cap = new_cap;
        }
        block.append(&mut incoming);
        core::mem::swap(&mut self.elems, &mut block);
        core::mem::swap(&mut other.elems, &mut incoming);
    }

    /// Hands the container to a forward consuming iterator that drains it
    /// front to back.
    pub fn into_iter(self) -> (it: myiter::MyIntoIter<T>)
        ensures
            it.0 == self,
    {
        myiter::MyIntoIter(self)
    }
}

/// Whether `c` is a size the growth policy can reserve: one of 4, 8, 16, ...
pub open spec fn is_growth_size(c: nat) -> bool
    decreases c,
{
    if c == 4 {
        true
    } else if c < 4 || c % 2 != 0 {
        false
    } else {
        is_growth_size(c / 2)
    }
}

/// The reserved capacity of a container built by `n` pushes onto the empty
/// container.
pub open spec fn pushed_capacity(n: nat) -> nat
    decreases n,
{
    if n == 0 {
        0
    } else {
        next_capacity((n - 1) as nat, pushed_capacity((n - 1) as nat))
    }
}

proof fn lemma_growth_size_at_least_four(c: nat)
    requires
        is_growth_size(c),
    ensures
        c >= 4,
    decreases c,
{
    if c != 4 {
        lemma_growth_size_at_least_four(c / 2);
    }
}

proof fn lemma_growth_size_double(c: nat)
    requires
        is_growth_size(c),
    ensures
        is_growth_size(2 * c),
{
    lemma_growth_size_at_least_four(c);
}

proof fn lemma_growth_size_gap(c: nat, m: nat)
    requires
        is_growth_size(c),
        is_growth_size(m),
        m > c,
    ensures
        m >= 2 * c,
    decreases c,
{
    lemma_growth_size_at_least_four(c);
    lemma_growth_size_at_least_four(m);
    assert(m % 2 == 0);
    assert(m == 2 * (m / 2));
    if c == 4 {
        lemma_growth_size_at_least_four(m / 2);
    } else {
        assert(c == 2 * (c / 2));
        lemma_growth_size_gap(c / 2, m / 2);
    }
}

/// Growth law: `n` pushes onto the empty container leave the capacity at
/// the smallest size in the doubling sequence 4, 8, 16, ... that is at
/// least `n`, and no reservation at all when `n` is 0.  Each `push`
/// guarantees in turn that its capacity update follows `next_capacity`, so
/// `pushed_capacity(n)` is the capacity such a container reports.
pub proof fn lemma_growth_law(n: nat)
    ensures
        pushed_capacity(0) == 0,
        n > 0 ==> is_growth_size(pushed_capacity(n)),
        n > 0 ==> pushed_capacity(n) >= n,
        forall|m: nat| n > 0 && is_growth_size(m) && m >= n ==> m >= pushed_capacity(n),
    decreases n,
{
    if n == 0 {
    } else if n == 1 {
        assert(pushed_capacity(0) == 0);
        assert(pushed_capacity(1) == 4);
        assert(is_growth_size(4));
        assert forall|m: nat| is_growth_size(m) && m >= 1 implies m >= 4 by {
            lemma_growth_size_at_least_four(m);
        }
    } else {
        let prev = pushed_capacity((n - 1) as nat);
        lemma_growth_law((n - 1) as nat);
        lemma_growth_size_at_least_four(prev);
        if n - 1 < prev {
            assert(pushed_capacity(n) == prev);
        } else {
            assert(prev == n - 1);
            assert(pushed_capacity(n) == 2 * prev);
            lemma_growth_size_double(prev);
            assert forall|m: nat| is_growth_size(m) && m >= n implies m >= 2 * prev by {
                lemma_growth_size_gap(prev, m);
            }
        }
    }
}

/// One step of the growth law: a push onto a container whose capacity is
/// the one reached by `len` pushes moves the capacity to the one reached
/// by `len + 1` pushes.
pub proof fn lemma_growth_step(len: nat)
    ensures
        next_capacity(len, pushed_capacity(len)) == pushed_capacity(len + 1),
{
}

/// Index round-trip: a push reads back at the old positions exactly what
/// stood there before, and at the new last position the pushed value, so
/// under a left-to-right append model `get(i)` returns the i-th pushed
/// value.
pub proof fn lemma_push_preserves_prefix<T>(s: Seq<T>, x: T)
    ensures
        s.push(x).len() == s.len() + 1,
        s.push(x)[s.len() as int] == x,
        forall|i: int| 0 <= i < s.len() ==> #[trigger] s.push(x)[i] == s[i],
{
}

/// Remove/insert inverse: inserting `x` at position `i` and then removing
/// position `i` hands `x` back and restores the original contents, length
/// and order.
pub proof fn lemma_insert_remove_inverse<T>(s: Seq<T>, x: T, i: int)
    requires
        0 <= i <= s.len(),
    ensures
        s.insert(i, x)[i] == x,
        s.insert(i, x).remove(i) == s,
{
    s.insert_ensures(i, x);
    assert(s.insert(i, x).remove(i) =~= s);
}

/// Pop is LIFO: popping right after a push hands back the pushed value and
/// restores the previous contents, so a run of pushes followed by pops
/// yields the values in exact reverse order.
pub proof fn lemma_push_pop_lifo<T>(s: Seq<T>, x: T)
    ensures
        s.push(x).len() > 0,
        s.push(x).last() == x,
        s.push(x).drop_last() == s,
{
    assert(s.push(x).drop_last() =~= s);
}

/// Append transfers and does not duplicate: the combined length is the sum
/// of the two lengths, the front keeps `self`'s old elements, and the tail
/// slots hold `other`'s old elements in their original order.
pub proof fn lemma_append_transfers<T>(a: Seq<T>, b: Seq<T>)
    ensures
        (a + b).len() == a.len() + b.len(),
        forall|i: int| 0 <= i < a.len() ==> #[trigger] (a + b)[i] == a[i],
        forall|i: int| 0 <= i < b.len() ==> #[trigger] (a + b)[a.len() + i] == b[i],
{
    assert forall|i: int| 0 <= i < b.len() implies #[trigger] (a + b)[a.len() + i] == b[i] by {
        assert((a + b)[a.len() + i] == b[i]);
    }
}

impl<T: Clone> Clone for MyVec<T> {
    /// An independent container with its own block of the same capacity,
    /// holding an element-wise duplicate of every live element.
    fn clone(&self) -> (res: Self)
        ensures
            res.spec_capacity() == self.spec_capacity(),
            res@.len() == self@.len(),
            forall|i: int| 0 <= i < self@.len() ==> cloned::<T>(self@[i], #[trigger] res@[i]),
    {
        proof {
            use_type_invariant(self);
        }
        MyVec { elems: self.elems.clone(), cap: self.cap }
    }
}

} // verus!
