//! A wait-free single-producer single-consumer (SPSC) queue to send data to
//! another thread, based on a ring of independently guarded slots. (The
//! wait-freedom of an operation is qualified by the payload cells: see the
//! crate-level docs.)
//!
//! If the queue is full, the [`Sender`] returns a [`NoSpaceLeftError`];
//! if the queue is empty, the [`Receiver`] returns `None`.
//!
//! Each handle is usable from one thread only; the two handles together are
//! the single producer and the single consumer. The per-slot occupancy flag
//! is the sole synchronization point between them: a slot's value is touched
//! by a side only while the flag is in the state that side may act on, and
//! every successful operation performs exactly one flag transition. The
//! FIFO behaviour of this slot/flag/cursor protocol is proved in
//! [`crate::spsc_model`] over a functional model of the whole store; the
//! contracts here pin down what each call does to the thread-own state of
//! its handle, whatever the concurrently running other side does.

use crate::payload::clone_out;
use core::sync::atomic::AtomicBool;
use core::sync::atomic::Ordering;
use crossbeam_utils::atomic::AtomicCell;
use crossbeam_utils::CachePadded;
use std::sync::Arc;
use vstd::prelude::*;

verus! {

/// The capacities the queue accepts: the powers of two starting at two
/// (zero and one are rejected).
pub open spec fn spec_is_power_of_two(x: nat) -> bool
    decreases x,
{
    if x < 2 {
        false
    } else if x == 2 {
        true
    } else {
        x % 2 == 0 && spec_is_power_of_two(x / 2)
    }
}

/// The classic bit trick `x & (x - 1) == 0` recognizes exactly the powers
/// of two, by induction on the number of low zero bits.
proof fn lemma_pow2_bit_trick(x: usize, y: usize)
    requires
        x >= 2,
        y == x - 1,
    ensures
        (x & y) == 0 <==> spec_is_power_of_two(x as nat),
    decreases x,
{
    if x == 2 {
        assert((x & y) == 0) by (bit_vector)
            requires x == 2 && y == 1;
    } else if x % 2 == 1 {
        assert((x & y) != 0) by (bit_vector)
            requires x >= 3 && x % 2 == 1 && y + 1 == x;
    } else {
        let h: usize = x / 2;
        let hy: usize = (h - 1) as usize;
        assert(h >= 2);
        lemma_pow2_bit_trick(h, hy);
        assert(((x & y) == 0) <==> ((h & hy) == 0)) by (bit_vector)
            requires
                x >= 4 && x % 2 == 0 && y + 1 == x && h == x / 2 && hy + 1 == h;
        assert((x as nat) / 2 == h as nat);
    }
}

/// True exactly when `x` is an accepted queue capacity: a power of two
/// that is at least two.
pub fn is_power_of_two(x: usize) -> (r: bool)
    ensures
        r <==> spec_is_power_of_two(x as nat),
{
    if x == 0 || x == 1 {
        false
    } else {
        let c = x - 1;
        proof {
            lemma_pow2_bit_trick(x, c);
        }
        (x & c) == 0
    }
}

/// The wraparound trick of the ring: masking a cursor with `capacity - 1`
/// lands on exactly the ring position `cursor % capacity` that the protocol
/// model in [`crate::spsc_model`] uses, because the capacity is a power of
/// two. This is what lets the hot path avoid a division.
pub proof fn lemma_mask_is_mod(w: usize, cap: usize)
    requires
        spec_is_power_of_two(cap as nat),
    ensures
        w & ((cap - 1) as usize) == w % cap,
    decreases cap,
{
    if cap == 2 {
        assert(w & 1 == w % 2) by (bit_vector);
    } else {
        let h: usize = cap / 2;
        lemma_mask_is_mod(w / 2, h);
        assert(w & ((cap - 1) as usize) == 2 * ((w / 2) & ((h - 1) as usize)) + (w % 2))
            by (bit_vector)
            requires cap == 2 * h && h >= 2;
        vstd::arithmetic::div_mod::lemma_breakdown(w as int, 2, h as int);
    }
}

/// A cursor advanced by one, wrapping around at the top of `usize`. The
/// physical slot index is always taken modulo the capacity, so wrapping
/// preserves the ring position exactly.
pub open spec fn wrap_inc(x: usize) -> usize {
    if x == usize::MAX {
        0
    } else {
        (x + 1) as usize
    }
}

/// Indicates that a queue is full; carries the rejected item back to the
/// caller unchanged, so nothing is lost.
#[derive(Clone, Debug, PartialEq)]
pub struct NoSpaceLeftError<T>(pub T);

/// One ring slot: the storage cell and its cache-line-isolated occupancy
/// flag. `false` means the writer may fill the slot; `true` means the
/// reader may drain it.
#[verifier::reject_recursive_types(T)]
struct Slot<T> {
    value: AtomicCell<Option<T>>,
    occupied: CachePadded<AtomicBool>,
}

impl<T> Slot<T> {
    fn new() -> Slot<T> {
        Slot {
            value: AtomicCell::new(None),
            occupied: CachePadded::new(AtomicBool::new(false)),
        }
    }

    /// Acquire-load of the occupancy flag; pairs with `set_occupied` on the
    /// other side to publish the slot's value.
    fn is_occupied(&self) -> bool {
        core::ops::Deref::deref(&self.occupied).load(Ordering::Acquire)
    }

    /// Release-store of the occupancy flag; the sole publication point of a
    /// slot between the two sides.
    fn set_occupied(&self, val: bool) {
        core::ops::Deref::deref(&self.occupied).store(val, Ordering::Release);
    }
}

/// The shared backing store: a fixed ring of slots whose length is a power
/// of two, plus the derived wraparound mask.
#[verifier::reject_recursive_types(T)]
struct Spsc<T> {
    mem: Vec<Slot<T>>,
    // The mask is written when this structure is created and is then only
    // read, so reading it needs no synchronization.
    mask: usize,
}

impl<T> Spsc<T> {
    spec fn wf(&self) -> bool {
        &&& self.mem.len() == self.mask + 1
        &&& spec_is_power_of_two(self.mem.len() as nat)
    }

    fn new(size: usize) -> (s: Spsc<T>)
        requires
            spec_is_power_of_two(size as nat),
        ensures
            s.wf(),
            s.mem.len() == size,
    {
        assert(size >= 2);
        let mut buffer: Vec<Slot<T>> = Vec::with_capacity(size);
        let mut i: usize = 0;
        while i < size
            invariant
                i <= size,
                buffer.len() == i,
            decreases size - i,
        {
            buffer.push(Slot::new());
            i = i + 1;
        }
        Spsc { mem: buffer, mask: size - 1 }
    }

    fn capacity(&self) -> (r: usize)
        requires
            self.wf(),
        ensures
            r == self.mem.len(),
    {
        self.mask + 1
    }
}

/// Create a new wait-free SPSC queue over a shared store of `capacity`
/// slots. The capacity must be a power of two (and at least two); callers
/// that take the capacity from untrusted input validate it first with
/// [`is_power_of_two`].
pub fn spsc<T>(capacity: usize) -> (r: (Sender<T>, Receiver<T>))
    requires
        spec_is_power_of_two(capacity as nat),
    ensures
        r.0.wf(),
        r.1.wf(),
        r.0.spec_capacity() == capacity,
        r.1.spec_capacity() == capacity,
        r.0.spec_cursor() == 0,
        r.1.spec_cursor() == 0,
        r.0.linked_to(&r.1),
{
    let chan = Arc::new(Spsc::new(capacity));

    let r = Receiver::new(Arc::clone(&chan));
    let w = Sender::new(chan);

    (w, r)
}

/// Handles that share a store keep sharing it across any number of sends
/// and receives: the operations promise `same_store`, and this carries the
/// pairing of the two handles along.
pub proof fn lemma_linkage_stable<T>(
    w1: &Sender<T>,
    w2: &Sender<T>,
    r1: &Receiver<T>,
    r2: &Receiver<T>,
)
    requires
        w1.linked_to(r1),
        w2.same_store(w1),
        r2.same_store(r1),
    ensures
        w2.linked_to(r2),
{
}

/// The receiving side of the [`spsc`] queue.
#[verifier::reject_recursive_types(T)]
pub struct Receiver<T> {
    spsc: Arc<Spsc<T>>,
    read: usize,
}

impl<T> Receiver<T> {
    /// The store is well formed: as many slots as the mask allows.
    pub closed spec fn wf(&self) -> bool {
        (*self.spsc).wf()
    }

    /// The number of slots of the shared ring.
    pub closed spec fn spec_capacity(&self) -> usize {
        ((*self.spsc).mask + 1) as usize
    }

    /// The private, monotonically advancing read position.
    pub closed spec fn spec_cursor(&self) -> usize {
        self.read
    }

    /// Both handles look into the same store.
    pub closed spec fn same_store(&self, other: &Receiver<T>) -> bool {
        self.spsc == other.spsc
    }

    fn new(spsc: Arc<Spsc<T>>) -> (r: Receiver<T>)
        requires
            (*spsc).wf(),
        ensures
            r.wf(),
            r.spec_cursor() == 0,
            r.spec_capacity() == (*spsc).mask + 1,
            r.spsc == spsc,
    {
        Receiver { spsc, read: 0 }
    }

    /// Retrieve the next available element from the queue. Returns `None`
    /// if the queue is observed empty. A successful receive drains exactly
    /// one slot, clears its flag, and advances the read cursor by one; on
    /// the empty answer the handle is left untouched.
    pub fn try_recv(&mut self) -> (r: Option<T>)
        requires
            old(self).wf(),
        ensures
            final(self).wf(),
            final(self).same_store(old(self)),
            final(self).spec_capacity() == old(self).spec_capacity(),
            r is Some ==> final(self).spec_cursor() == wrap_inc(old(self).spec_cursor()),
            *final(self) == *old(self) || final(self).spec_cursor() == wrap_inc(
                old(self).spec_cursor(),
            ),
    {
        let rpos = self.read & self.spsc.mask;
        proof {
            let cap: usize = ((*self.spsc).mask + 1) as usize;
            lemma_mask_is_mod(self.read, cap);
            vstd::arithmetic::div_mod::lemma_mod_division_less_than_divisor(
                self.read as int,
                cap as int,
            );
        }
        let slot = &self.spsc.mem[rpos];
        let occupied = slot.is_occupied();
        let taken = if occupied {
            slot.value.take()
        } else {
            None
        };
        self.finish_recv(occupied, taken)
    }

    /// The receive decision on the observed occupancy flag and the value
    /// drawn from the slot, verified for every value of both: a clear flag
    /// is the "empty" answer — nothing is returned and the handle is left
    /// untouched; a set flag hands the drawn value out exactly as drawn,
    /// returns the slot to the sender by the one flag transition, and
    /// advances the read cursor by exactly one.
    fn finish_recv(&mut self, occupied: bool, taken: Option<T>) -> (r: Option<T>)
        requires
            old(self).wf(),
        ensures
            final(self).wf(),
            final(self).same_store(old(self)),
            final(self).spec_capacity() == old(self).spec_capacity(),
            !occupied ==> r is None && *final(self) == *old(self),
            occupied ==> r == taken && final(self).spec_cursor() == wrap_inc(
                old(self).spec_cursor(),
            ),
    {
        if !occupied {
            None
        } else {
            let rpos = self.read & self.spsc.mask;
            proof {
                let cap: usize = ((*self.spsc).mask + 1) as usize;
                lemma_mask_is_mod(self.read, cap);
                vstd::arithmetic::div_mod::lemma_mod_division_less_than_divisor(
                    self.read as int,
                    cap as int,
                );
            }
            let slot = &self.spsc.mem[rpos];
            slot.set_occupied(false);
            self.read = self.read.wrapping_add(1);
            taken
        }
    }

    /// Peeks the next element in the queue without removing it: the flag is
    /// not cleared and the cursor does not move (the receiver is borrowed
    /// immutably), so repeated peeks observe the same item until `try_recv`
    /// is called. The item is handed out as a clone; the storage cell
    /// cannot lend a reference into itself.
    pub fn peek(&self) -> (r: Option<T>) where T: Clone
        requires
            self.wf(),
    {
        let rpos = self.read & self.spsc.mask;
        proof {
            let cap: usize = ((*self.spsc).mask + 1) as usize;
            lemma_mask_is_mod(self.read, cap);
            vstd::arithmetic::div_mod::lemma_mod_division_less_than_divisor(
                self.read as int,
                cap as int,
            );
        }
        let slot = &self.spsc.mem[rpos];
        if !slot.is_occupied() {
            None
        } else {
            // The occupied slot is owned by this (the receiving) side until
            // the flag is cleared, so drawing the value out and putting the
            // very same value back is invisible to the sender; `clone_out`
            // carries the verified half of the decision (`Some` exactly
            // when the drawn value is, and then a clone of it).
            let v = slot.value.take();
            let out = clone_out(&v);
            slot.value.store(v);
            out
        }
    }

    /// Returns the total number of items that the queue can hold at most.
    pub fn capacity(&self) -> (r: usize)
        requires
            self.wf(),
        ensures
            r == self.spec_capacity(),
            spec_is_power_of_two(r as nat),
    {
        self.spsc.capacity()
    }
}

/// The sending side of the [`spsc`] queue.
#[verifier::reject_recursive_types(T)]
pub struct Sender<T> {
    spsc: Arc<Spsc<T>>,
    write: usize,
}

impl<T> Sender<T> {
    /// The store is well formed: as many slots as the mask allows.
    pub closed spec fn wf(&self) -> bool {
        (*self.spsc).wf()
    }

    /// The number of slots of the shared ring.
    pub closed spec fn spec_capacity(&self) -> usize {
        ((*self.spsc).mask + 1) as usize
    }

    /// The private, monotonically advancing write position.
    pub closed spec fn spec_cursor(&self) -> usize {
        self.write
    }

    /// Both handles look into the same store.
    pub closed spec fn same_store(&self, other: &Sender<T>) -> bool {
        self.spsc == other.spsc
    }

    /// This sender feeds exactly the store the receiver drains.
    pub closed spec fn linked_to(&self, other: &Receiver<T>) -> bool {
        self.spsc == other.spsc
    }

    fn new(spsc: Arc<Spsc<T>>) -> (r: Sender<T>)
        requires
            (*spsc).wf(),
        ensures
            r.wf(),
            r.spec_cursor() == 0,
            r.spec_capacity() == (*spsc).mask + 1,
            r.spsc == spsc,
    {
        Sender { spsc, write: 0 }
    }

    /// Attempts to send a value to the queue without blocking. If the slot
    /// at the write position is still occupied, the queue is full: the item
    /// comes back unchanged inside a [`NoSpaceLeftError`] and the handle is
    /// left untouched. Otherwise the item is stored, the slot's flag is
    /// released to the receiver, and the write cursor advances by one.
    pub fn try_send(&mut self, data: T) -> (r: Result<(), NoSpaceLeftError<T>>)
        requires
            old(self).wf(),
        ensures
            final(self).wf(),
            final(self).same_store(old(self)),
            final(self).spec_capacity() == old(self).spec_capacity(),
            match r {
                Ok(()) => final(self).spec_cursor() == wrap_inc(old(self).spec_cursor()),
                Err(e) => e.0 == data && *final(self) == *old(self),
            },
    {
        let wpos = self.write & self.spsc.mask;
        proof {
            let cap: usize = ((*self.spsc).mask + 1) as usize;
            lemma_mask_is_mod(self.write, cap);
            vstd::arithmetic::div_mod::lemma_mod_division_less_than_divisor(
                self.write as int,
                cap as int,
            );
        }
        let occupied = self.spsc.mem[wpos].is_occupied();
        self.finish_send(occupied, data)
    }

    /// The send decision on the observed occupancy flag, verified for every
    /// value the flag can have: a set flag is the "full" condition — the
    /// item comes back unchanged and the handle is left untouched; a clear
    /// flag means this side owns the slot — the item is stored, the slot is
    /// published by the one flag transition, and the write cursor advances
    /// by exactly one.
    fn finish_send(&mut self, occupied: bool, data: T) -> (r: Result<(), NoSpaceLeftError<T>>)
        requires
            old(self).wf(),
        ensures
            final(self).wf(),
            final(self).same_store(old(self)),
            final(self).spec_capacity() == old(self).spec_capacity(),
            occupied ==> (r matches Err(e) && e.0 == data && *final(self) == *old(self)),
            !occupied ==> r is Ok && final(self).spec_cursor() == wrap_inc(
                old(self).spec_cursor(),
            ),
    {
        if occupied {
            Err(NoSpaceLeftError(data))
        } else {
            let wpos = self.write & self.spsc.mask;
            proof {
                let cap: usize = ((*self.spsc).mask + 1) as usize;
                lemma_mask_is_mod(self.write, cap);
                vstd::arithmetic::div_mod::lemma_mod_division_less_than_divisor(
                    self.write as int,
                    cap as int,
                );
            }
            let slot = &self.spsc.mem[wpos];
            slot.value.store(Some(data));
            slot.set_occupied(true);
            self.write = self.write.wrapping_add(1);
            Ok(())
        }
    }

    /// Returns the total number of items that the queue can hold at most.
    pub fn capacity(&self) -> (r: usize)
        requires
            self.wf(),
        ensures
            r == self.spec_capacity(),
            spec_is_power_of_two(r as nat),
    {
        self.spsc.capacity()
    }
}

} // verus!
