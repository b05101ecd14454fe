//! A ring buffer of `u32` values over a fixed backing array.

use crate::cursor::{Cursor, RingPtr};
use vstd::prelude::*;

verus! {

/// The customary number of slots: a `RingBuff<MAX>` holds up to nine values.
pub const MAX: usize = 10;

/// The mathematical state of a ring buffer: the queued values, oldest
/// first, and the number of slots they are kept in.
pub ghost struct Fifo {
    pub items: Seq<u32>,
    pub capacity: nat,
}

impl Fifo {
    /// The empty queue over `capacity` slots.
    pub open spec fn fresh(capacity: nat) -> Fifo {
        Fifo { items: Seq::empty(), capacity }
    }

    /// How many values fit at once: one slot stays reserved.
    pub open spec fn usable(self) -> nat {
        if self.capacity == 0 {
            0
        } else {
            (self.capacity - 1) as nat
        }
    }

    /// The queue holds no more than fits.
    pub open spec fn valid(self) -> bool {
        self.items.len() <= self.usable()
    }

    /// How many more values fit.
    pub open spec fn free(self) -> int {
        self.usable() - self.items.len()
    }

    /// No value is queued.
    pub open spec fn is_empty(self) -> bool {
        self.items.len() == 0
    }

    /// As many values are queued as fit.
    pub open spec fn is_full(self) -> bool {
        self.items.len() >= self.usable()
    }

    /// What a push of `v` returns: `v` itself, or nothing from a full queue.
    pub open spec fn push_result(self, v: u32) -> Option<u32> {
        if self.is_full() {
            None
        } else {
            Some(v)
        }
    }

    /// The queue after a push of `v`: `v` joins at the end, unless the
    /// queue is full, which drops it.
    pub open spec fn after_push(self, v: u32) -> Fifo {
        if self.is_full() {
            self
        } else {
            Fifo { items: self.items.push(v), ..self }
        }
    }

    /// What a pop returns: the oldest value, or nothing from an empty queue.
    pub open spec fn pop_result(self) -> Option<u32> {
        if self.is_empty() {
            None
        } else {
            Some(self.items[0])
        }
    }

    /// The queue after a pop: the oldest value has left, if there was one.
    pub open spec fn after_pop(self) -> Fifo {
        if self.is_empty() {
            self
        } else {
            Fifo { items: self.items.drop_first(), ..self }
        }
    }

    /// The queue after the values of `vs` were pushed one by one.
    pub open spec fn after_pushes(self, vs: Seq<u32>) -> Fifo
        decreases vs.len(),
    {
        if vs.len() == 0 {
            self
        } else {
            self.after_pushes(vs.drop_last()).after_push(vs.last())
        }
    }

    /// The queue after `n` pops in a row.
    pub open spec fn after_pops(self, n: nat) -> Fifo
        decreases n,
    {
        if n == 0 {
            self
        } else {
            self.after_pops((n - 1) as nat).after_pop()
        }
    }

    /// The queue that a backing store holds under a cursor: the occupied
    /// slots, read from the read position forward.
    pub open spec fn of(storage: Seq<u32>, cursor: Cursor) -> Fifo {
        Fifo {
            items: Seq::new(cursor.len(), |i: int| storage[cursor.slot_at(i as nat) as int]),
            capacity: cursor.capacity,
        }
    }

    /// The slot that a write is given is written with `v`; without a slot
    /// the store stays as it is.
    pub open spec fn store_after_push(storage: Seq<u32>, cursor: Cursor, v: u32) -> Seq<u32> {
        match cursor.push_slot() {
            Some(i) => storage.update(i as int, v),
            None => storage,
        }
    }

    /// What a read finds in the slot it is given.
    pub open spec fn store_read(storage: Seq<u32>, cursor: Cursor) -> Option<u32> {
        match cursor.pop_slot() {
            Some(i) => Some(storage[i as int]),
            None => None,
        }
    }

    /// Under a fresh cursor any store holds the empty queue.
    pub proof fn lemma_of_fresh(storage: Seq<u32>, capacity: nat)
        ensures
            Fifo::of(storage, Cursor::fresh(capacity)) == Fifo::fresh(capacity),
    {
        assert(Fifo::of(storage, Cursor::fresh(capacity)).items == Seq::<u32>::empty());
    }

    /// A store under a valid cursor never holds more than fits.
    pub proof fn lemma_of_valid(storage: Seq<u32>, cursor: Cursor)
        requires
            cursor.valid(),
        ensures
            Fifo::of(storage, cursor).valid(),
            Fifo::of(storage, cursor).free() == cursor.free(),
            Fifo::of(storage, cursor).is_full() <==> cursor.is_full(),
            Fifo::of(storage, cursor).is_empty() <==> cursor.is_empty(),
    {
        cursor.lemma_free_plus_len();
        cursor.lemma_full_empty();
    }

    /// Writing `v` into the slot that the cursor hands out is a push of `v`
    /// onto the queue.
    pub proof fn lemma_of_push(storage: Seq<u32>, cursor: Cursor, v: u32)
        requires
            cursor.valid(),
            storage.len() == cursor.capacity,
        ensures
            Fifo::of(Fifo::store_after_push(storage, cursor, v), cursor.after_push()) == Fifo::of(
                storage,
                cursor,
            ).after_push(v),
            cursor.push_slot() is Some <==> Fifo::of(storage, cursor).push_result(v) is Some,
    {
        let before = Fifo::of(storage, cursor);
        let after = Fifo::of(Fifo::store_after_push(storage, cursor, v), cursor.after_push());
        Fifo::lemma_of_valid(storage, cursor);
        cursor.lemma_push();
        if cursor.push_slot() is Some {
            assert forall|i: int| 0 <= i < after.items.len() implies #[trigger] after.items[i]
                == before.items.push(v)[i] by {
                cursor.lemma_slot_at(i as nat);
            }
            assert(after.items == before.items.push(v));
        }
    }

    /// Reading the slot that the cursor hands out is a pop from the queue.
    pub proof fn lemma_of_pop(storage: Seq<u32>, cursor: Cursor)
        requires
            cursor.valid(),
            storage.len() == cursor.capacity,
        ensures
            Fifo::of(storage, cursor.after_pop()) == Fifo::of(storage, cursor).after_pop(),
            Fifo::store_read(storage, cursor) == Fifo::of(storage, cursor).pop_result(),
    {
        let before = Fifo::of(storage, cursor);
        let after = Fifo::of(storage, cursor.after_pop());
        Fifo::lemma_of_valid(storage, cursor);
        cursor.lemma_pop();
        if cursor.pop_slot() is Some {
            cursor.lemma_next(cursor.read_pos);
            cursor.lemma_slot_at(0);
            assert forall|i: int| 0 <= i < after.items.len() implies #[trigger] after.items[i]
                == before.items.drop_first()[i] by {
                cursor.after_pop().lemma_slot_at(i as nat);
                cursor.lemma_slot_at((i + 1) as nat);
            }
            assert(after.items == before.items.drop_first());
        }
    }

    /// A fresh queue is empty, and all but one of its slots are free.
    pub proof fn lemma_fresh(capacity: nat)
        ensures
            Fifo::fresh(capacity).valid(),
            Fifo::fresh(capacity).is_empty(),
            Fifo::fresh(capacity).pop_result() is None,
            capacity >= 1 ==> Fifo::fresh(capacity).free() == capacity - 1,
    {
    }

    /// A push that succeeds takes exactly one free slot; one that fails
    /// leaves the queue, and so its free slots, as they were.
    pub proof fn lemma_push(self, v: u32)
        requires
            self.valid(),
        ensures
            self.after_push(v).valid(),
            self.after_push(v).capacity == self.capacity,
            self.push_result(v) is Some ==> self.after_push(v).free() == self.free() - 1,
            self.push_result(v) is None ==> self.after_push(v) == self,
            self.push_result(v) is None <==> self.free() == 0,
    {
    }

    /// A pop that succeeds gives exactly one free slot back; one that fails
    /// leaves the queue, and so its free slots, as they were.
    pub proof fn lemma_pop(self)
        requires
            self.valid(),
        ensures
            self.after_pop().valid(),
            self.after_pop().capacity == self.capacity,
            self.pop_result() is Some ==> self.after_pop().free() == self.free() + 1,
            self.pop_result() is None ==> self.after_pop() == self,
            self.pop_result() is None <==> self.free() == self.usable(),
    {
    }

    /// As long as they fit, values pushed one by one all join the queue, in
    /// the order of the pushes.
    pub proof fn lemma_after_pushes(self, vs: Seq<u32>)
        requires
            self.valid(),
            self.items.len() + vs.len() <= self.usable(),
        ensures
            self.after_pushes(vs).items == self.items + vs,
            self.after_pushes(vs).capacity == self.capacity,
            self.after_pushes(vs).valid(),
            self.after_pushes(vs).free() == self.free() - vs.len(),
        decreases vs.len(),
    {
        if vs.len() > 0 {
            self.lemma_after_pushes(vs.drop_last());
            assert(vs == vs.drop_last().push(vs.last()));
            assert((self.items + vs.drop_last()).push(vs.last()) == self.items + vs);
        }
    }

    /// As long as there are values, pops in a row take them from the front.
    pub proof fn lemma_after_pops(self, n: nat)
        requires
            self.valid(),
            n <= self.items.len(),
        ensures
            self.after_pops(n).items == self.items.skip(n as int),
            self.after_pops(n).capacity == self.capacity,
            self.after_pops(n).valid(),
            self.after_pops(n).free() == self.free() + n,
            n < self.items.len() ==> self.after_pops(n).pop_result() == Some(self.items[n as int]),
            n == self.items.len() ==> self.after_pops(n).pop_result() is None,
        decreases n,
    {
        if n > 0 {
            self.lemma_after_pops((n - 1) as nat);
            assert(self.items.skip(n - 1).drop_first() == self.items.skip(n as int));
        } else {
            assert(self.items.skip(0) == self.items);
        }
    }

    /// Into an empty queue of `capacity` slots, with at least one slot,
    /// exactly `capacity - 1` pushes in a row succeed: the push after `k`
    /// earlier ones succeeds while `k` is below `capacity - 1`, and fails
    /// when `k` has reached it.
    pub proof fn lemma_fill_from_empty(self, vs: Seq<u32>, v: u32)
        requires
            self.valid(),
            self.is_empty(),
            self.capacity >= 1,
            vs.len() <= self.capacity - 1,
        ensures
            vs.len() < self.capacity - 1 ==> self.after_pushes(vs).push_result(v) == Some(v),
            vs.len() == self.capacity - 1 ==> self.after_pushes(vs).push_result(v) is None,
            self.after_pushes(vs).free() == self.capacity - 1 - vs.len(),
    {
        self.lemma_after_pushes(vs);
    }

    /// First in, first out: when the values of `vs` are pushed into an empty
    /// queue in which they fit, and as many pops follow, the pops return the
    /// values of `vs` in the order of the pushes, and the queue ends empty.
    pub proof fn lemma_fifo_order(self, vs: Seq<u32>, k: nat)
        requires
            self.valid(),
            self.is_empty(),
            vs.len() <= self.usable(),
            k < vs.len(),
        ensures
            self.after_pushes(vs).after_pops(k).pop_result() == Some(vs[k as int]),
            self.after_pushes(vs).after_pops(vs.len()).is_empty(),
            self.after_pushes(vs).after_pops(vs.len()).pop_result() is None,
    {
        self.lemma_after_pushes(vs);
        assert(self.items + vs == vs);
        self.after_pushes(vs).lemma_after_pops(k);
        self.after_pushes(vs).lemma_after_pops(vs.len());
    }

    /// A push into a full queue fails however often it is repeated, and
    /// never alters the queue.
    pub proof fn lemma_push_full_repeats(self, vs: Seq<u32>, v: u32)
        requires
            self.valid(),
            self.is_full(),
        ensures
            self.after_pushes(vs) == self,
            self.after_pushes(vs).push_result(v) is None,
        decreases vs.len(),
    {
        if vs.len() > 0 {
            self.lemma_push_full_repeats(vs.drop_last(), v);
        }
    }

    /// A pop from an empty queue fails however often it is repeated, and
    /// never alters the queue.
    pub proof fn lemma_pop_empty_repeats(self, n: nat)
        requires
            self.valid(),
            self.is_empty(),
        ensures
            self.after_pops(n) == self,
            self.after_pops(n).pop_result() is None,
        decreases n,
    {
        if n > 0 {
            self.lemma_pop_empty_repeats((n - 1) as nat);
        }
    }
}

/// A first-in, first-out queue of `u32` values in an array of `N` slots, of
/// which `N - 1` can be occupied at once.
pub struct RingBuff<const N: usize> {
    data: [u32; N],
    ptr: RingPtr,
}

impl<const N: usize> View for RingBuff<N> {
    type V = Fifo;

    /// The queued values, oldest first.
    open spec fn view(&self) -> Fifo {
        Fifo::of(self.storage(), self.cursor())
    }
}

impl<const N: usize> RingBuff<N> {
    /// What the slots of the backing array hold.
    pub closed spec fn storage(&self) -> Seq<u32> {
        self.data@
    }

    /// The state of the cursor that picks the slots.
    pub closed spec fn cursor(&self) -> Cursor {
        self.ptr@
    }

    /// The cursor is valid and ranges over the slots of the array.
    pub open spec fn wf(&self) -> bool {
        &&& self.cursor().valid()
        &&& self.cursor().capacity == N
        &&& self.storage().len() == N
    }

    /// A well-formed buffer never holds more than fits, and has as many
    /// free slots as its cursor.
    pub proof fn lemma_wf_valid(&self)
        requires
            self.wf(),
        ensures
            self@.valid(),
            self@.capacity == N,
            self@.free() == self.cursor().free(),
    {
        Fifo::lemma_of_valid(self.storage(), self.cursor());
    }

    /// An empty buffer, every slot holding zero. With `N` of 0 or 1 it can
    /// never take a value: it is empty and full at once.
    pub fn new() -> (r: Self)
        ensures
            r.wf(),
            r.cursor() == Cursor::fresh(N as nat),
            r.storage() == Seq::new(N as nat, |i: int| 0u32),
            r@ == Fifo::fresh(N as nat),
    {
        let r = RingBuff { data: [0; N], ptr: RingPtr::new(N) };
        proof {
            Fifo::lemma_of_fresh(r.storage(), N as nat);
        }
        r
    }

    /// Appends `v` and returns it, or returns `None` from a full buffer,
    /// which drops `v` and stays as it was. The value goes into the slot
    /// that the cursor hands out.
    pub fn push(&mut self, v: u32) -> (r: Option<u32>)
        requires
            old(self).wf(),
        ensures
            final(self).wf(),
            final(self).cursor() == old(self).cursor().after_push(),
            final(self).storage() == Fifo::store_after_push(
                old(self).storage(),
                old(self).cursor(),
                v,
            ),
            final(self)@ == old(self)@.after_push(v),
            r == old(self)@.push_result(v),
            r is None <==> old(self)@.free() == 0,
            r is Some ==> final(self)@.free() == old(self)@.free() - 1,
            r is None ==> final(self)@.free() == old(self)@.free(),
    {
        proof {
            Fifo::lemma_of_push(self.storage(), self.cursor(), v);
            Fifo::lemma_of_valid(self.storage(), self.cursor());
            self@.lemma_push(v);
            self.cursor().lemma_push();
        }
        if let Some(n) = self.ptr.push() {
            self.data[n] = v;
            return Some(v);
        }
        None
    }

    /// Removes the oldest value and returns it, or returns `None` from an
    /// empty buffer, which stays as it was. The value is read from the slot
    /// that the cursor hands out; the slot keeps it until a later push
    /// writes there.
    pub fn pop(&mut self) -> (r: Option<u32>)
        requires
            old(self).wf(),
        ensures
            final(self).wf(),
            final(self).cursor() == old(self).cursor().after_pop(),
            final(self).storage() == old(self).storage(),
            final(self)@ == old(self)@.after_pop(),
            r == old(self)@.pop_result(),
            r == Fifo::store_read(old(self).storage(), old(self).cursor()),
            r is None <==> old(self)@.is_empty(),
            r is Some ==> final(self)@.free() == old(self)@.free() + 1,
            r is None ==> final(self)@.free() == old(self)@.free(),
    {
        proof {
            Fifo::lemma_of_pop(self.storage(), self.cursor());
            Fifo::lemma_of_valid(self.storage(), self.cursor());
            self@.lemma_pop();
            self.cursor().lemma_pop();
        }
        if let Some(n) = self.ptr.pop() {
            return Some(self.data[n]);
        }
        None
    }

    /// The number of values that can still be pushed before the buffer is
    /// full.
    pub fn get_left(&self) -> (left: usize)
        requires
            self.wf(),
        ensures
            left == self@.free(),
            left == self.cursor().free(),
            left <= self@.usable(),
    {
        proof {
            Fifo::lemma_of_valid(self.storage(), self.cursor());
        }
        self.ptr.get_left()
    }
}

} // verus!
