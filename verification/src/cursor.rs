//! Index management for a circular slot range.
//!
//! A cursor keeps a write position and a read position over `capacity`
//! slots. One slot always stays unused, so that equal positions can only
//! mean "empty" and never "full".

use vstd::arithmetic::div_mod::{lemma_mod_self_0, lemma_small_mod};
use vstd::prelude::*;

verus! {

/// The mathematical state of a ring cursor: two positions over an index
/// space of `capacity` slots.
pub ghost struct Cursor {
    pub write_pos: nat,
    pub read_pos: nat,
    pub capacity: nat,
}

impl Cursor {
    /// The empty cursor over `capacity` slots.
    pub open spec fn fresh(capacity: nat) -> Cursor {
        Cursor { write_pos: 0, read_pos: 0, capacity }
    }

    /// Both positions lie inside the index space. With no slots at all both
    /// rest at zero.
    pub open spec fn valid(self) -> bool {
        if self.capacity == 0 {
            self.write_pos == 0 && self.read_pos == 0
        } else {
            self.write_pos < self.capacity && self.read_pos < self.capacity
        }
    }

    /// The position that follows `pos`, wrapping at the end of the index space.
    pub open spec fn next(self, pos: nat) -> nat {
        if self.capacity == 0 {
            0
        } else {
            (pos + 1) % self.capacity
        }
    }

    /// The slot that holds the `i`-th oldest element.
    pub open spec fn slot_at(self, i: nat) -> nat {
        if self.capacity == 0 {
            0
        } else {
            (self.read_pos + i) % self.capacity
        }
    }

    /// How many slots can be occupied at once: all but the reserved one.
    pub open spec fn usable(self) -> nat {
        if self.capacity == 0 {
            0
        } else {
            (self.capacity - 1) as nat
        }
    }

    /// How many slots are occupied: the distance from the read position
    /// forward to the write position.
    pub open spec fn len(self) -> nat {
        if self.write_pos >= self.read_pos {
            (self.write_pos - self.read_pos) as nat
        } else {
            (self.capacity - self.read_pos + self.write_pos) as nat
        }
    }

    /// How many more slots can be written before the cursor is full.
    /// A cursor without slots has none.
    pub open spec fn free(self) -> int {
        if self.capacity == 0 {
            0
        } else if self.read_pos > self.write_pos {
            self.read_pos - self.write_pos - 1
        } else {
            self.capacity - self.write_pos + self.read_pos - 1
        }
    }

    /// Nothing is there to read.
    pub open spec fn is_empty(self) -> bool {
        self.write_pos == self.read_pos
    }

    /// Advancing the write position would make it meet the read position.
    pub open spec fn is_full(self) -> bool {
        self.next(self.write_pos) == self.read_pos
    }

    /// The slot that a write is given, if there is one.
    pub open spec fn push_slot(self) -> Option<nat> {
        if self.is_full() {
            None
        } else {
            Some(self.write_pos)
        }
    }

    /// The cursor after a write was asked for.
    pub open spec fn after_push(self) -> Cursor {
        if self.is_full() {
            self
        } else {
            Cursor { write_pos: self.next(self.write_pos), ..self }
        }
    }

    /// The slot that a read is given, if there is one.
    pub open spec fn pop_slot(self) -> Option<nat> {
        if self.is_empty() {
            None
        } else {
            Some(self.read_pos)
        }
    }

    /// The cursor after a read was asked for.
    pub open spec fn after_pop(self) -> Cursor {
        if self.is_empty() {
            self
        } else {
            Cursor { read_pos: self.next(self.read_pos), ..self }
        }
    }

    /// The cursor after `n` writes were asked for in a row.
    pub open spec fn after_pushes(self, n: nat) -> Cursor
        decreases n,
    {
        if n == 0 {
            self
        } else {
            self.after_pushes((n - 1) as nat).after_push()
        }
    }

    /// The cursor after `n` reads were asked for in a row.
    pub open spec fn after_pops(self, n: nat) -> Cursor
        decreases n,
    {
        if n == 0 {
            self
        } else {
            self.after_pops((n - 1) as nat).after_pop()
        }
    }

    /// Inside the index space, the successor of a position is the position
    /// plus one, or zero from the last slot.
    pub proof fn lemma_next(self, pos: nat)
        requires
            pos < self.capacity,
        ensures
            self.next(pos) == (if pos + 1 == self.capacity { 0 } else { pos + 1 }),
            self.next(pos) < self.capacity,
    {
        if pos + 1 == self.capacity {
            lemma_mod_self_0(self.capacity as int);
        } else {
            lemma_small_mod(pos + 1, self.capacity);
        }
    }

    /// The slot of the `i`-th oldest element is `i` steps after the read
    /// position, less one turn of the ring where that passes its end.
    pub proof fn lemma_slot_at(self, i: nat)
        requires
            self.valid(),
            i < self.capacity,
        ensures
            self.slot_at(i) == (if self.read_pos + i < self.capacity {
                (self.read_pos + i) as int
            } else {
                self.read_pos + i - self.capacity
            }),
            self.slot_at(i) < self.capacity,
    {
        let c = self.capacity as int;
        let x = (self.read_pos + i) as int;
        if x < c {
            lemma_small_mod(x as nat, self.capacity);
        } else {
            vstd::arithmetic::div_mod::lemma_fundamental_div_mod_converse(x, c, 1, x - c);
        }
    }

    /// Free and occupied slots add up to the usable capacity.
    pub proof fn lemma_free_plus_len(self)
        requires
            self.valid(),
        ensures
            self.free() + self.len() == self.usable(),
            0 <= self.free() <= self.usable(),
            self.len() <= self.usable(),
    {
    }

    /// A cursor is full exactly when no slot is free, and empty exactly when
    /// every usable slot is.
    pub proof fn lemma_full_empty(self)
        requires
            self.valid(),
        ensures
            self.is_full() <==> self.free() == 0,
            self.is_full() <==> self.len() == self.usable(),
            self.is_empty() <==> self.len() == 0,
            self.is_empty() <==> self.free() == self.usable(),
    {
        if self.capacity > 0 {
            self.lemma_next(self.write_pos);
        }
    }

    /// A write that succeeds hands out the old write position, which lies
    /// inside the index space, keeps the cursor valid and takes one free
    /// slot. A write on a full cursor changes nothing.
    pub proof fn lemma_push(self)
        requires
            self.valid(),
        ensures
            self.after_push().valid(),
            self.after_push().capacity == self.capacity,
            self.after_push().read_pos == self.read_pos,
            self.push_slot() matches Some(i) ==> i < self.capacity,
            self.push_slot() is Some ==> self.after_push().free() == self.free() - 1,
            self.push_slot() is Some ==> self.after_push().len() == self.len() + 1,
            self.push_slot() is None ==> self.after_push() == self,
            self.push_slot() is None <==> self.is_full(),
    {
        if self.capacity > 0 {
            self.lemma_next(self.write_pos);
        }
    }

    /// A read that succeeds hands out the old read position, which lies
    /// inside the index space, keeps the cursor valid and gives one free
    /// slot back. A read on an empty cursor changes nothing.
    pub proof fn lemma_pop(self)
        requires
            self.valid(),
        ensures
            self.after_pop().valid(),
            self.after_pop().capacity == self.capacity,
            self.after_pop().write_pos == self.write_pos,
            self.pop_slot() matches Some(i) ==> i < self.capacity,
            self.pop_slot() is Some ==> self.after_pop().free() == self.free() + 1,
            self.pop_slot() is Some ==> self.after_pop().len() == self.len() - 1,
            self.pop_slot() is None ==> self.after_pop() == self,
            self.pop_slot() is None <==> self.is_empty(),
    {
        if self.capacity > 0 {
            self.lemma_next(self.read_pos);
        }
    }

    /// A fresh cursor is valid and empty, and all but one of its slots are
    /// free.
    pub proof fn lemma_fresh(capacity: nat)
        ensures
            Cursor::fresh(capacity).valid(),
            Cursor::fresh(capacity).is_empty(),
            Cursor::fresh(capacity).len() == 0,
            capacity >= 1 ==> Cursor::fresh(capacity).free() == capacity - 1,
    {
    }

    /// Writes in a row succeed until the usable capacity is reached, and
    /// fail from then on: after `n` of them the cursor holds `n` more
    /// elements, or is full.
    pub proof fn lemma_after_pushes(self, n: nat)
        requires
            self.valid(),
        ensures
            self.after_pushes(n).valid(),
            self.after_pushes(n).capacity == self.capacity,
            self.after_pushes(n).read_pos == self.read_pos,
            self.after_pushes(n).len() == (if self.len() + n <= self.usable() {
                self.len() + n
            } else {
                self.usable()
            }),
        decreases n,
    {
        if n > 0 {
            let before = self.after_pushes((n - 1) as nat);
            self.lemma_after_pushes((n - 1) as nat);
            before.lemma_push();
            before.lemma_full_empty();
        }
    }

    /// Reads in a row succeed until the cursor is empty, and fail from then
    /// on: after `n` of them the cursor holds `n` fewer elements, or none.
    pub proof fn lemma_after_pops(self, n: nat)
        requires
            self.valid(),
        ensures
            self.after_pops(n).valid(),
            self.after_pops(n).capacity == self.capacity,
            self.after_pops(n).write_pos == self.write_pos,
            self.after_pops(n).len() == (if n <= self.len() {
                (self.len() - n) as int
            } else {
                0
            }),
        decreases n,
    {
        if n > 0 {
            let before = self.after_pops((n - 1) as nat);
            self.lemma_after_pops((n - 1) as nat);
            before.lemma_pop();
            before.lemma_full_empty();
        }
    }

    /// On an empty cursor of `capacity` slots, with at least one slot,
    /// exactly `capacity - 1` writes in a row succeed: each of the first
    /// `capacity - 1` finds a slot, and the one after them finds the cursor
    /// full.
    pub proof fn lemma_fill_from_empty(self, k: nat)
        requires
            self.valid(),
            self.is_empty(),
            self.capacity >= 1,
            k <= self.capacity - 1,
        ensures
            k < self.capacity - 1 ==> self.after_pushes(k).push_slot() is Some,
            k == self.capacity - 1 ==> self.after_pushes(k).push_slot() is None,
            self.after_pushes(k).free() == self.capacity - 1 - k,
    {
        self.lemma_after_pushes(k);
        self.after_pushes(k).lemma_full_empty();
        self.after_pushes(k).lemma_free_plus_len();
    }

    /// A write on a full cursor fails however often it is repeated, and
    /// never alters the cursor.
    pub proof fn lemma_push_full_repeats(self, n: nat)
        requires
            self.valid(),
            self.is_full(),
        ensures
            self.after_pushes(n) == self,
            self.after_pushes(n).push_slot() is None,
        decreases n,
    {
        if n > 0 {
            self.lemma_push_full_repeats((n - 1) as nat);
        }
    }

    /// A read on an empty cursor fails however often it is repeated, and
    /// never alters the cursor.
    pub proof fn lemma_pop_empty_repeats(self, n: nat)
        requires
            self.valid(),
            self.is_empty(),
        ensures
            self.after_pops(n) == self,
            self.after_pops(n).pop_slot() is None,
        decreases n,
    {
        if n > 0 {
            self.lemma_pop_empty_repeats((n - 1) as nat);
        }
    }
}

/// Two positions over a fixed number of slots, which turn the slot range
/// into a first-in, first-out queue of indices.
pub struct RingPtr {
    top: usize,
    end: usize,
    max: usize,
}

impl View for RingPtr {
    type V = Cursor;

    closed spec fn view(&self) -> Cursor {
        Cursor { write_pos: self.top as nat, read_pos: self.end as nat, capacity: self.max as nat }
    }
}

impl RingPtr {
    /// The cursor's positions lie inside its index space.
    pub open spec fn wf(&self) -> bool {
        self@.valid()
    }

    /// An empty cursor over `len` slots, of which `len - 1` can be occupied.
    /// With `len` of 0 or 1 no slot can ever be handed out: the cursor is
    /// empty and full at once.
    pub fn new(len: usize) -> (r: RingPtr)
        ensures
            r.wf(),
            r@ == Cursor::fresh(len as nat),
    {
        RingPtr { top: 0, end: 0, max: len }
    }

    /// Asks for the slot of the next write. On a full cursor the answer is
    /// `None` and nothing changes; otherwise it is the write position, which
    /// then moves on by one slot.
    pub fn push(&mut self) -> (slot: Option<usize>)
        requires
            old(self).wf(),
        ensures
            final(self).wf(),
            final(self)@ == old(self)@.after_push(),
            slot is None <==> old(self)@.is_full(),
            slot matches Some(i) ==> old(self)@.push_slot() == Some(i as nat),
            slot matches Some(i) ==> i < old(self)@.capacity,
            slot is Some ==> final(self)@.free() == old(self)@.free() - 1,
            slot is None ==> final(self)@.free() == old(self)@.free(),
    {
        proof {
            self@.lemma_push();
            if self.max > 0 {
                self@.lemma_next(self.top as nat);
            }
        }
        let mut next: usize = self.top + 1;
        if next >= self.max {
            next = 0;
        }
        if next == self.end {
            return None;
        }
        let rslt: usize = self.top;
        self.top = next;
        Some(rslt)
    }

    /// Asks for the slot of the next read. On an empty cursor the answer is
    /// `None` and nothing changes; otherwise it is the read position, which
    /// then moves on by one slot.
    pub fn pop(&mut self) -> (slot: Option<usize>)
        requires
            old(self).wf(),
        ensures
            final(self).wf(),
            final(self)@ == old(self)@.after_pop(),
            slot is None <==> old(self)@.is_empty(),
            slot matches Some(i) ==> old(self)@.pop_slot() == Some(i as nat),
            slot matches Some(i) ==> i < old(self)@.capacity,
            slot is Some ==> final(self)@.free() == old(self)@.free() + 1,
            slot is None ==> final(self)@.free() == old(self)@.free(),
    {
        proof {
            self@.lemma_pop();
            if self.max > 0 {
                self@.lemma_next(self.end as nat);
            }
        }
        if self.top == self.end {
            return None;
        }
        let rslt: usize = self.end;
        let mut next: usize = self.end + 1;
        if next >= self.max {
            next = 0;
        }
        self.end = next;
        Some(rslt)
    }

    /// The number of slots that can still be written before the cursor is
    /// full: the usable capacity less the occupied slots.
    pub fn get_left(&self) -> (left: usize)
        requires
            self.wf(),
        ensures
            left == self@.free(),
            left == self@.usable() - self@.len(),
            left <= self@.usable(),
    {
        if self.max == 0 {
            return 0;
        }
        if self.end > self.top {
            return self.end - self.top - 1;
        }
        self.max - self.top + self.end - 1
    }
}

} // verus!
