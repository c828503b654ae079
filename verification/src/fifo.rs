//! A bounded first-in first-out queue kept in a ring of slots.
use vstd::prelude::*;

verus! {

pub const DEFAULT_CAPACITY: usize = 256;

/// The type of the ring cursors.
pub type Cur = u16;

/// A queue of at most `capacity()` elements, stored in a ring: the elements sit
/// in the slots from `starting` onwards (wrapping around), and `ending` is the
/// next free slot.
pub struct Fifo<T> {
    data: Vec<Option<T>>,
    length: usize,
    starting: Cur,
    ending: Cur,
}

/// The slot that holds the `i`th element of a ring of `cap` slots whose first
/// element is in slot `start`.
pub open spec fn slot(start: int, i: int, cap: int) -> int {
    (start + i) % cap
}

impl<T> Fifo<T> {
    pub closed spec fn cap(&self) -> nat {
        self.data@.len()
    }

    /// The queue's contents, oldest first.
    pub closed spec fn view(&self) -> Seq<T> {
        Seq::new(
            self.length as nat,
            |i: int| self.data@[slot(self.starting as int, i, self.cap() as int)]->Some_0,
        )
    }

    /// The ring is consistent: the slots of the elements hold values and the
    /// others are empty.
    pub closed spec fn wf(&self) -> bool {
        &&& 1 <= self.cap() <= Cur::MAX
        &&& self.length <= self.cap()
        &&& self.starting < self.cap()
        &&& self.ending < self.cap()
        &&& self.ending == slot(self.starting as int, self.length as int, self.cap() as int)
        &&& forall|j: int|
            0 <= j < self.cap() ==> (#[trigger] self.data@[j] is Some <==> exists|i: int|
                0 <= i < self.length && slot(self.starting as int, i, self.cap() as int) == j)
    }

    /// The maximum number of elements.
    pub closed spec fn spec_capacity(&self) -> nat {
        self.cap()
    }

    /// A consistent queue holds at most its capacity, which is between 1 and `Cur::MAX`.
    pub proof fn lemma_bounds(&self)
        requires
            self.wf(),
        ensures
            self@.len() <= self.spec_capacity(),
            1 <= self.spec_capacity() <= Cur::MAX,
            0 <= self.starting_index() < self.spec_capacity(),
    {
    }

    /// An empty queue with room for `capacity` elements (at least 1, at most
    /// `Cur::MAX`).
    pub fn with_capacity(capacity: usize) -> (r: Fifo<T>)
        requires
            1 <= capacity <= Cur::MAX,
        ensures
            r.wf(),
            r@ == Seq::<T>::empty(),
            r.spec_capacity() == capacity,
    {
        let mut data: Vec<Option<T>> = Vec::new();
        let mut i: usize = 0;
        while i < capacity
            invariant
                0 <= i <= capacity,
                data@.len() == i,
                forall|j: int| 0 <= j < i ==> #[trigger] data@[j] is None,
            decreases capacity - i,
        {
            data.push(None);
            i = i + 1;
        }
        let r = Fifo { data, length: 0, starting: 0, ending: 0 };
        assert(r@ =~= Seq::<T>::empty());
        r
    }

    /// An empty queue with the default capacity.
    pub fn new() -> (r: Fifo<T>)
        ensures
            r.wf(),
            r@ == Seq::<T>::empty(),
            r.spec_capacity() == DEFAULT_CAPACITY,
    {
        Self::with_capacity(DEFAULT_CAPACITY)
    }

    /// The maximum number of elements the queue can hold.
    pub fn capacity(&self) -> (r: usize)
        ensures
            r == self.spec_capacity(),
    {
        self.data.len()
    }

    pub fn is_empty(&self) -> (r: bool)
        requires
            self.wf(),
        ensures
            r == (self@.len() == 0),
    {
        self.length == 0
    }

    pub fn is_full(&self) -> (r: bool)
        requires
            self.wf(),
        ensures
            r == (self@.len() == self.spec_capacity()),
    {
        self.length == self.data.len()
    }

    /// Number of elements in the queue.
    pub fn length(&self) -> (r: usize)
        requires
            self.wf(),
        ensures
            r == self@.len(),
    {
        self.length
    }

    /// Number of free slots.
    pub fn remaining(&self) -> (r: usize)
        requires
            self.wf(),
        ensures
            r == self.spec_capacity() - self@.len(),
    {
        self.data.len() - self.length
    }

    /// Number of free slots (0 should the length ever exceed the capacity).
    pub fn free_slots(&self) -> (r: usize)
        ensures
            self.wf() ==> r == self.spec_capacity() - self@.len(),
    {
        if self.length <= self.data.len() {
            self.data.len() - self.length
        } else {
            0
        }
    }

    /// Checks the ring's bookkeeping: `true` exactly when the queue is consistent.
    pub fn is_consistent(&self) -> (r: bool)
        ensures
            r == self.wf(),
    {
        let cap = self.data.len();
        if cap < 1 || cap > Cur::MAX as usize || self.length > cap || self.starting as usize
            >= cap || self.ending as usize >= cap {
            return false;
        }
        let st = self.starting as usize;
        if self.ending as usize != (st + self.length) % cap {
            return false;
        }
        let mut j: usize = 0;
        while j < cap
            invariant
                0 <= j <= cap,
                cap == self.data@.len(),
                1 <= cap <= Cur::MAX,
                self.length <= cap,
                st == self.starting,
                st < cap,
                forall|k: int|
                    0 <= k < j ==> (#[trigger] self.data@[k] is Some <==> exists|i: int|
                        0 <= i < self.length && slot(st as int, i, cap as int) == k),
            decreases cap - j,
        {
            let d = if j >= st {
                j - st
            } else {
                j + cap - st
            };
            let in_window = d < self.length;
            proof {
                lemma_slot_position(st as int, d as int, j as int, cap as int);
            }
            if self.data[j].is_some() != in_window {
                proof {
                    if in_window {
                        assert(exists|i: int|
                            0 <= i < self.length && slot(st as int, i, cap as int) == j);
                    } else {
                        assert(!(exists|i: int|
                            0 <= i < self.length && slot(st as int, i, cap as int) == j));
                    }
                    assert(!(self.data@[j as int] is Some <==> exists|i: int|
                        0 <= i < self.length && slot(st as int, i, cap as int) == j));
                }
                return false;
            }
            j = j + 1;
        }
        true
    }

    /// Moves a cursor `num` slots forward around a ring of `cap` slots.
    fn add(pos: Cur, num: Cur, cap: usize) -> (r: Cur)
        requires
            1 <= cap <= Cur::MAX,
        ensures
            r == slot(pos as int, num as int, cap as int),
            r < cap,
    {
        ((pos as usize + num as usize) % cap) as Cur
    }

    /// Adds a value at the back; `Err(())` (and nothing changes) when the queue is full.
    pub fn push(&mut self, datum: T) -> (r: Result<(), ()>)
        requires
            old(self).wf(),
        ensures
            final(self).wf(),
            final(self).spec_capacity() == old(self).spec_capacity(),
            r is Err <==> old(self)@.len() == old(self).spec_capacity(),
            r is Ok ==> final(self)@ == old(self)@.push(datum),
            r is Err ==> final(self)@ == old(self)@,
    {
        if self.is_full() {
            Err(())
        } else {
            let ghost old_data = self.data@;
            let ghost cap = self.cap() as int;
            let ghost st = self.starting as int;
            let end = self.ending;
            self.data.set(end as usize, Some(datum));
            self.length = self.length + 1;
            self.ending = Self::add(end, 1, self.data.len());
            proof {
                vstd::arithmetic::div_mod::lemma_add_mod_noop_right(1, st + self.length - 1, cap);
                assert(self.ending == slot(st, self.length as int, cap));
                assert forall|j: int|
                    0 <= j < cap implies (#[trigger] self.data@[j] is Some <==> exists|i: int|
                        0 <= i < self.length && slot(st, i, cap) == j) by {
                    if j == end as int {
                        assert(slot(st, self.length - 1, cap) == j);
                    } else {
                        if old_data[j] is Some {
                            let i = choose|i: int| 0 <= i < self.length - 1 && slot(st, i, cap) == j;
                            assert(slot(st, i, cap) == j);
                        }
                        if exists|i: int| 0 <= i < self.length && slot(st, i, cap) == j {
                            let i = choose|i: int| 0 <= i < self.length && slot(st, i, cap) == j;
                            assert(i != self.length - 1);
                        }
                    }
                }
                assert forall|i: int| 0 <= i < self.length - 1 implies slot(st, i, cap) != end as int by {
                    lemma_slots_distinct(st, i, self.length - 1, cap);
                }
                assert(self@ =~= old(self)@.push(datum));
            }
            Ok(())
        }
    }

    /// The `i`th element, oldest first, to be changed in place.
    pub fn get_mut(&mut self, i: usize) -> (r: &mut T)
        requires
            old(self).wf(),
            i < old(self)@.len(),
        ensures
            *r == old(self)@[i as int],
            final(self).wf(),
            final(self).spec_capacity() == old(self).spec_capacity(),
            final(self)@ == old(self)@.update(i as int, *final(r)),
    {
        let ghost cap = self.cap() as int;
        let ghost st = self.starting as int;
        let n = self.data.len();
        let idx: usize = (self.starting as usize + i) % n;
        proof {
            assert(idx == slot(st, i as int, cap));
            assert forall|k: int| 0 <= k < self.length && k != i implies slot(st, k, cap) != idx by {
                if k < i {
                    lemma_slots_distinct(st, k, i as int, cap);
                } else {
                    lemma_slots_distinct(st, i as int, k, cap);
                }
            }
            assert(self.data@[idx as int] is Some);
        }
        self.data[idx].as_mut().unwrap()
    }

    /// The value at the front, left in place; `None` when the queue is empty.
    pub fn peek(&self) -> (r: Option<&T>)
        requires
            self.wf(),
        ensures
            self@.len() == 0 ==> r is None,
            self@.len() > 0 ==> r == Some(&self@[0]),
    {
        if self.is_empty() {
            None
        } else {
            proof {
                vstd::arithmetic::div_mod::lemma_small_mod(self.starting as nat, self.cap());
                assert(slot(self.starting as int, 0, self.cap() as int) == self.starting);
                assert(self.data@[self.starting as int] is Some);
            }
            match &self.data[self.starting as usize] {
                Some(v) => Some(v),
                None => None,
            }
        }
    }

    /// Drops `num` values from the front.
    fn advance(&mut self, num: Cur)
        requires
            old(self).wf(),
            num <= old(self)@.len(),
        ensures
            final(self).wf(),
            final(self).spec_capacity() == old(self).spec_capacity(),
            final(self)@ == old(self)@.subrange(num as int, old(self)@.len() as int),
    {
        let mut k: Cur = 0;
        while k < num
            invariant
                0 <= k <= num,
                num <= old(self)@.len(),
                self.wf(),
                self.cap() == old(self).cap(),
                self@ == old(self)@.subrange(k as int, old(self)@.len() as int),
            decreases num - k,
        {
            let _ = self.pop();
            k = k + 1;
        }
    }

    /// Removes and returns the value at the front; `None` when the queue is empty.
    pub fn pop(&mut self) -> (r: Option<T>)
        requires
            old(self).wf(),
        ensures
            final(self).wf(),
            final(self).spec_capacity() == old(self).spec_capacity(),
            old(self)@.len() == 0 ==> r is None && final(self)@ == old(self)@,
            old(self)@.len() > 0 ==> r == Some(old(self)@[0]) && final(self)@ == old(self)@.drop_first(),
    {
        if self.is_empty() {
            None
        } else {
            let ghost old_data = self.data@;
            let ghost cap = self.cap() as int;
            let ghost st = self.starting as int;
            let start = self.starting;
            let mut tmp: Option<T> = None;
            self.data.set_and_swap(start as usize, &mut tmp);
            self.length = self.length - 1;
            self.starting = Self::add(start, 1, self.data.len());
            proof {
                let st2 = self.starting as int;
                vstd::arithmetic::div_mod::lemma_small_mod(st as nat, cap as nat);
                assert(slot(st, 0, cap) == st);
                assert forall|i: int| #![trigger slot(st2, i, cap)] 0 <= i < self.length implies slot(st2, i, cap)
                    == slot(st, i + 1, cap) && slot(st, i + 1, cap) != st by {
                    lemma_slot_shift(st, i, cap);
                    lemma_slots_distinct(st, 0, i + 1, cap);
                }
                assert forall|j: int|
                    0 <= j < cap implies (#[trigger] self.data@[j] is Some <==> exists|i: int|
                        0 <= i < self.length && slot(st2, i, cap) == j) by {
                    if j == st {
                        if exists|i: int| 0 <= i < self.length && slot(st2, i, cap) == j {
                            let i = choose|i: int| 0 <= i < self.length && slot(st2, i, cap) == j;
                            assert(slot(st2, i, cap) == slot(st, i + 1, cap));
                        }
                    } else {
                        if old_data[j] is Some {
                            let i = choose|i: int| 0 <= i < self.length + 1 && slot(st, i, cap) == j;
                            assert(i != 0);
                            assert(slot(st2, i - 1, cap) == slot(st, i, cap));
                        }
                        if exists|i: int| 0 <= i < self.length && slot(st2, i, cap) == j {
                            let i = choose|i: int| 0 <= i < self.length && slot(st2, i, cap) == j;
                            assert(slot(st2, i, cap) == slot(st, i + 1, cap));
                        }
                    }
                }
                assert(self.ending == slot(st2, self.length as int, cap)) by {
                    lemma_slot_shift(st, self.length as int, cap);
                }
                assert(self@ =~= old(self)@.drop_first());
            }
            tmp
        }
    }

    /// The iterator step: the same as `pop`.
    pub fn next(&mut self) -> (r: Option<T>)
        requires
            old(self).wf(),
        ensures
            final(self).wf(),
            final(self).spec_capacity() == old(self).spec_capacity(),
            old(self)@.len() == 0 ==> r is None && final(self)@ == old(self)@,
            old(self)@.len() > 0 ==> r == Some(old(self)@[0]) && final(self)@ == old(self)@.drop_first(),
    {
        self.pop()
    }

    /// Exactly how many values are left to take.
    pub fn size_hint(&self) -> (r: (usize, Option<usize>))
        requires
            self.wf(),
        ensures
            r == (self@.len() as usize, Some(self@.len() as usize)),
    {
        (self.length, Some(self.length))
    }

    /// Moves all of `iter` to the back of the queue, in order, when there is room
    /// for all of it (`iter` is then left empty); otherwise `Err(())` and neither
    /// the queue nor `iter` changes.
    pub fn push_iter(&mut self, iter: &mut Vec<T>) -> (r: Result<(), ()>)
        requires
            old(self).wf(),
        ensures
            final(self).wf(),
            final(self).spec_capacity() == old(self).spec_capacity(),
            r is Err <==> old(self).spec_capacity() - old(self)@.len() < old(iter)@.len(),
            r is Ok ==> final(self)@ == old(self)@ + old(iter)@ && final(iter)@ == Seq::<T>::empty(),
            r is Err ==> final(self)@ == old(self)@ && final(iter)@ == old(iter)@,
    {
        let len = iter.len();
        if self.remaining() < len {
            Err(())
        } else {
            let mut k: usize = 0;
            while k < len
                invariant
                    0 <= k <= len,
                    len == old(iter)@.len(),
                    old(self)@.len() + len <= old(self).spec_capacity(),
                    self.wf(),
                    self.spec_capacity() == old(self).spec_capacity(),
                    self@ == old(self)@ + old(iter)@.subrange(0, k as int),
                    iter@ == old(iter)@.subrange(k as int, len as int),
                decreases len - k,
            {
                let v = iter.remove(0);
                let r = self.push(v);
                assert(old(iter)@.subrange(0, k + 1) =~= old(iter)@.subrange(0, k as int).push(v));
                assert(iter@ =~= old(iter)@.subrange(k + 1, len as int));
                k = k + 1;
            }
            assert(old(iter)@.subrange(0, len as int) =~= old(iter)@);
            Ok(())
        }
    }
}

impl<T: Clone> Fifo<T> {
    /// Pushes a clone of each value of `slice` at the back, in order, when there is
    /// room for all of them; otherwise `Err(())` and the queue does not change.
    pub fn push_slice(&mut self, slice: &[T]) -> (r: Result<(), ()>)
        requires
            old(self).wf(),
        ensures
            final(self).wf(),
            final(self).spec_capacity() == old(self).spec_capacity(),
            r is Err <==> old(self).spec_capacity() - old(self)@.len() < slice@.len(),
            r is Err ==> final(self)@ == old(self)@,
            r is Ok ==> final(self)@.len() == old(self)@.len() + slice@.len(),
            r is Ok ==> final(self)@.subrange(0, old(self)@.len() as int) == old(self)@,
            r is Ok ==> forall|i: int|
                0 <= i < slice@.len() ==> cloned(slice@[i], #[trigger] final(self)@[old(self)@.len() + i]),
    {
        if self.remaining() < slice.len() {
            Err(())
        } else {
            let mut k: usize = 0;
            while k < slice.len()
                invariant
                    0 <= k <= slice@.len(),
                    old(self)@.len() + slice@.len() <= old(self).spec_capacity(),
                    self.wf(),
                    self.spec_capacity() == old(self).spec_capacity(),
                    self@.len() == old(self)@.len() + k,
                    self@.subrange(0, old(self)@.len() as int) == old(self)@,
                    forall|i: int|
                        0 <= i < k ==> cloned(slice@[i], #[trigger] self@[old(self)@.len() + i]),
                decreases slice@.len() - k,
            {
                let v = slice[k].clone();
                let ghost before = self@;
                let r = self.push(v);
                assert(self@.subrange(0, old(self)@.len() as int) =~= before.subrange(0, old(self)@.len() as int));
                assert(self@[old(self)@.len() + k] == v);
                assert forall|i: int| 0 <= i < k + 1 implies cloned(slice@[i], #[trigger] self@[old(self)@.len() + i]) by {
                    if i < k {
                        assert(self@[old(self)@.len() + i] == before[old(self)@.len() + i]);
                    }
                }
                k = k + 1;
            }
            Ok(())
        }
    }

    /// Pushes a clone of each referenced value, like `push_slice`.
    pub fn push_iter_ref(&mut self, iter: &[T]) -> (r: Result<(), ()>)
        requires
            old(self).wf(),
        ensures
            final(self).wf(),
            final(self).spec_capacity() == old(self).spec_capacity(),
            r is Err <==> old(self).spec_capacity() - old(self)@.len() < iter@.len(),
            r is Err ==> final(self)@ == old(self)@,
            r is Ok ==> final(self)@.len() == old(self)@.len() + iter@.len(),
            r is Ok ==> final(self)@.subrange(0, old(self)@.len() as int) == old(self)@,
            r is Ok ==> forall|i: int|
                0 <= i < iter@.len() ==> cloned(iter@[i], #[trigger] final(self)@[old(self)@.len() + i]),
    {
        let mut cloned_items: Vec<T> = Vec::new();
        let mut k: usize = 0;
        while k < iter.len()
            invariant
                0 <= k <= iter@.len(),
                cloned_items@.len() == k,
                forall|i: int| 0 <= i < k ==> cloned(iter@[i], #[trigger] cloned_items@[i]),
            decreases iter@.len() - k,
        {
            cloned_items.push(iter[k].clone());
            k = k + 1;
        }
        let ghost items = cloned_items@;
        let r = self.push_iter(&mut cloned_items);
        proof {
            if r is Ok {
                assert forall|i: int| 0 <= i < iter@.len() implies cloned(iter@[i], #[trigger] self@[old(self)@.len() + i]) by {
                    assert(self@[old(self)@.len() + i] == items[i]);
                }
                assert(self@.subrange(0, old(self)@.len() as int) =~= old(self)@);
            }
        }
        r
    }

    /// A clone of `val` for each slot of a default-capacity queue, to fill one with.
    pub fn array_init_using_clone(val: T) -> (r: Vec<T>)
        ensures
            r@.len() == DEFAULT_CAPACITY,
            forall|i: int| 0 <= i < DEFAULT_CAPACITY ==> cloned(val, #[trigger] r@[i]),
    {
        let mut out: Vec<T> = Vec::new();
        let mut k: usize = 0;
        while k < DEFAULT_CAPACITY
            invariant
                0 <= k <= DEFAULT_CAPACITY,
                out@.len() == k,
                forall|i: int| 0 <= i < k ==> cloned(val, #[trigger] out@[i]),
            decreases DEFAULT_CAPACITY - k,
        {
            out.push(val.clone());
            k = k + 1;
        }
        out
    }
}

impl<T: Copy> Fifo<T> {
    /// The contents as two runs, oldest first: the first run goes from the front
    /// to the end of the ring (or to the back, if that comes first), the second
    /// holds the rest.
    pub fn as_slice(&self) -> (r: (Vec<T>, Vec<T>))
        requires
            self.wf(),
        ensures
            r.0@ + r.1@ == self@,
            r.0@.len() == self.front_run_len(),
            r.0@.len() == 0 ==> r.1@.len() == 0,
            r.0@.len() == 0 <==> self@.len() == 0,
    {
        let cap = self.data.len();
        let first_len = if self.length <= cap - self.starting as usize {
            self.length
        } else {
            cap - self.starting as usize
        };
        let mut a: Vec<T> = Vec::new();
        let mut b: Vec<T> = Vec::new();
        let mut k: usize = 0;
        while k < self.length
            invariant
                0 <= k <= self.length,
                self.wf(),
                cap == self.cap(),
                first_len <= self.length,
                first_len == (if self.length <= cap - self.starting as usize {
                    self.length as int
                } else {
                    cap - self.starting as int
                }),
                a@ + b@ == self@.subrange(0, k as int),
                k <= first_len ==> a@.len() == k && b@.len() == 0,
                k > first_len ==> a@.len() == first_len,
            decreases self.length - k,
        {
            let idx = (self.starting as usize + k) % cap;
            proof {
                assert(exists|i: int|
                    0 <= i < self.length && slot(self.starting as int, i, cap as int) == idx) by {
                    assert(slot(self.starting as int, k as int, cap as int) == idx);
                }
                assert(self.data@[idx as int] is Some);
            }
            let v = match &self.data[idx] {
                Some(v) => *v,
                None => {
                    assert(false);
                    return (a, b);
                },
            };
            if k < first_len {
                a.push(v);
            } else {
                b.push(v);
            }
            proof {
                assert(self@.subrange(0, k + 1) =~= self@.subrange(0, k as int).push(v));
            }
            k = k + 1;
        }
        assert(self@.subrange(0, self.length as int) =~= self@);
        (a, b)
    }

    /// The contents, oldest first.
    pub fn to_vec(&self) -> (r: Vec<T>)
        requires
            self.wf(),
        ensures
            r@ == self@,
    {
        let (mut a, mut b) = self.as_slice();
        a.append(&mut b);
        a
    }
}

impl<T> Fifo<T> {
    pub closed spec fn starting_index(&self) -> int {
        self.starting as int
    }

    /// How many elements the front run holds: those stored from the first
    /// element's slot to the end of the ring.
    pub open spec fn front_run_len(&self) -> int {
        if self@.len() <= self.spec_capacity() - self.starting_index() {
            self@.len() as int
        } else {
            self.spec_capacity() - self.starting_index()
        }
    }
}

/// Slots of different positions within one lap of the ring are different.
pub proof fn lemma_slots_distinct(start: int, i: int, j: int, cap: int)
    requires
        0 <= start < cap,
        0 <= i < j < cap,
    ensures
        slot(start, i, cap) != slot(start, j, cap),
{
    if slot(start, i, cap) == slot(start, j, cap) {
        vstd::arithmetic::div_mod::lemma_fundamental_div_mod(start + i, cap);
        vstd::arithmetic::div_mod::lemma_fundamental_div_mod(start + j, cap);
        let qi = (start + i) / cap;
        let qj = (start + j) / cap;
        assert(cap * qj - cap * qi == j - i);
        vstd::arithmetic::mul::lemma_mul_is_distributive_sub(cap, qj, qi);
        assert(cap * (qj - qi) == j - i);
        if qj - qi >= 1 {
            vstd::arithmetic::mul::lemma_mul_inequality(1, qj - qi, cap);
            assert(cap * (qj - qi) >= cap);
        } else {
            vstd::arithmetic::mul::lemma_mul_inequality(qj - qi, 0, cap);
            assert(cap * (qj - qi) <= 0);
        }
    }
}

/// The position `d` of slot `j` (counted from `start`) is the only position
/// within one lap of the ring that lands on `j`.
pub proof fn lemma_slot_position(start: int, d: int, j: int, cap: int)
    requires
        0 <= start < cap,
        0 <= j < cap,
        d == (if j >= start {
            j - start
        } else {
            j + cap - start
        }),
    ensures
        slot(start, d, cap) == j,
        forall|i: int| 0 <= i < cap && slot(start, i, cap) == j ==> i == d,
{
    if j >= start {
        vstd::arithmetic::div_mod::lemma_small_mod(j as nat, cap as nat);
    } else {
        vstd::arithmetic::div_mod::lemma_mod_add_multiples_vanish(j, cap);
        vstd::arithmetic::div_mod::lemma_small_mod(j as nat, cap as nat);
    }
    assert forall|i: int| 0 <= i < cap && slot(start, i, cap) == j implies i == d by {
        if start + i < cap {
            vstd::arithmetic::div_mod::lemma_small_mod((start + i) as nat, cap as nat);
        } else {
            vstd::arithmetic::div_mod::lemma_mod_sub_multiples_vanish(start + i, cap);
            vstd::arithmetic::div_mod::lemma_small_mod((start + i - cap) as nat, cap as nat);
        }
    }
}

/// Moving the start one slot forward shifts every position by one.
pub proof fn lemma_slot_shift(start: int, i: int, cap: int)
    requires
        0 <= start < cap,
        0 <= i,
    ensures
        slot(slot(start, 1, cap), i, cap) == slot(start, i + 1, cap),
{
    vstd::arithmetic::div_mod::lemma_add_mod_noop_right(i, start + 1, cap);
}

impl<T> Default for Fifo<T> {
    fn default() -> (r: Fifo<T>)
        ensures
            r.wf(),
            r@ == Seq::<T>::empty(),
            r.spec_capacity() == DEFAULT_CAPACITY,
    {
        Self::new()
    }
}

/// The values that popping a queue with the contents `q` until it is empty
/// hands out, in the order they come: each pop gives the front (`q[0]`) and
/// leaves the rest (`q.drop_first()`).
pub open spec fn drained<T>(q: Seq<T>) -> Seq<T>
    decreases q.len(),
{
    if q.len() == 0 {
        Seq::empty()
    } else {
        seq![q[0]] + drained(q.drop_first())
    }
}

/// A queue hands its values out in the order they went in: a value pushed at
/// the back (its contents become `q.push(a)`) comes out after everything that
/// was queued before it, which comes out as it would have.
pub proof fn law_fifo_order<T>(q: Seq<T>, a: T)
    ensures
        drained(q.push(a)) == drained(q).push(a),
    decreases q.len(),
{
    if q.len() == 0 {
        assert(q.push(a).drop_first() =~= Seq::<T>::empty());
        assert(drained(Seq::<T>::empty()) == Seq::<T>::empty());
        assert(q.push(a)[0] == a);
        assert(drained(q) == Seq::<T>::empty());
        assert(seq![a] + Seq::<T>::empty() =~= seq![a]);
        assert(Seq::<T>::empty().push(a) =~= seq![a]);
    } else {
        law_fifo_order(q.drop_first(), a);
        assert(q.push(a).drop_first() =~= q.drop_first().push(a));
        assert(seq![q[0]] + drained(q.drop_first()).push(a) =~= (seq![q[0]] + drained(q.drop_first())).push(a));
    }
}

/// Draining a queue gives back exactly its contents, front first.
pub proof fn law_drained_is_contents<T>(q: Seq<T>)
    ensures
        drained(q) == q,
    decreases q.len(),
{
    if q.len() > 0 {
        law_drained_is_contents(q.drop_first());
        assert(seq![q[0]] + q.drop_first() =~= q);
    }
}

} // verus!
