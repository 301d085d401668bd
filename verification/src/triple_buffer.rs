//! Wait-free single-producer single-consumer triple buffer to share the
//! latest value between two threads. (The wait-freedom of an operation is
//! qualified by the payload cells: see the crate-level docs.)
//!
//! Three rotating storage cells and one packed atomic index/flag word: the
//! writer always owns a cell neither the reader nor the published word
//! currently holds, so a write never waits; superseded values are discarded
//! rather than queued, and the reader always sees the most recently
//! published value. The rotation invariant — the reader's cell, the
//! writer's cell and the published cell are a permutation of the three —
//! and the latest-value semantics are proved in
//! [`crate::triple_buffer_model`] over a functional model of the protocol;
//! the contracts here pin down what each call does to the thread-own state
//! of its handle.

use crate::inital_write_guard::InitialWriteGuard;
use crate::payload::clone_out;
use core::sync::atomic::AtomicUsize;
use core::sync::atomic::Ordering;
use crossbeam_utils::atomic::AtomicCell;
use crossbeam_utils::CachePadded;
use std::sync::Arc;
use vstd::prelude::*;

verus! {

/// Bit 2 of the packed word: set when the published cell holds a value the
/// reader has not claimed yet.
const NEW_DATA_FLAG: usize = 0b100;

/// Bits 0 and 1 of the packed word: the index of the published cell.
const INDEX_MASK: usize = 0b011;

/// The index bits of a swapped-out packed word, as the next owned cell.
/// A published word always carries an index below three; the fallback
/// keeps the indexing total for the verifier, which cannot see across the
/// atomic word.
spec fn spec_adopt_index(prev: usize) -> usize {
    if prev & INDEX_MASK < 3 {
        prev & INDEX_MASK
    } else {
        0
    }
}

/// The claim test on a loaded packed word: the reader claims exactly when
/// the new-data flag bit is up.
fn has_new_data(word: usize) -> (b: bool)
    ensures
        b <==> word & NEW_DATA_FLAG != 0,
{
    word & NEW_DATA_FLAG != 0
}

/// Adopt the cell named by a swapped-out packed word: its index bits
/// become the holder's next cell, exactly as the rotation hands cells
/// around between writer, reader and the published word.
fn adopt_index(prev: usize) -> (idx: usize)
    ensures
        idx == spec_adopt_index(prev),
        idx < 3,
{
    let idx = prev & INDEX_MASK;
    if idx < 3 {
        idx
    } else {
        0
    }
}

/// Compose the word that publishes a cell: the cell's index in the low
/// bits and the new-data flag above them.
fn publish_word(idx: usize) -> (w: usize)
    requires
        idx < 3,
    ensures
        w & INDEX_MASK == idx,
        w & NEW_DATA_FLAG != 0,
{
    proof {
        assert(idx < 3 ==> ((idx | 0b100) & 0b011 == idx && (idx | 0b100) & 0b100 != 0))
            by (bit_vector);
    }
    idx | NEW_DATA_FLAG
}

/// The shared backing store: exactly three storage cells, the packed
/// index/flag word, and the guard that distinguishes "never written" from
/// "has a value".
#[verifier::reject_recursive_types(T)]
struct Shared<T> {
    mem: Vec<AtomicCell<Option<T>>>,
    latest_free: CachePadded<AtomicUsize>,
    guard: InitialWriteGuard,
}

impl<T> Shared<T> {
    spec fn wf(&self) -> bool {
        self.mem.len() == 3
    }

    fn new() -> (s: Shared<T>)
        ensures
            s.wf(),
    {
        let mut mem: Vec<AtomicCell<Option<T>>> = Vec::with_capacity(3);
        mem.push(AtomicCell::new(None));
        mem.push(AtomicCell::new(None));
        mem.push(AtomicCell::new(None));
        Shared {
            mem,
            latest_free: CachePadded::new(AtomicUsize::new(0)),
            guard: InitialWriteGuard::new(),
        }
    }

    /// Acquire-load of the packed index/flag word.
    fn load_word(&self) -> usize {
        core::ops::Deref::deref(&self.latest_free).load(Ordering::Acquire)
    }

    /// Acquire-release swap of the packed index/flag word: publishes the
    /// word `val` and hands back the previously published word.
    fn swap_word(&self, val: usize) -> usize {
        core::ops::Deref::deref(&self.latest_free).swap(val, Ordering::AcqRel)
    }
}

/// Create a new wait-free triple buffer: a writer that never waits on the
/// reader and a reader that always sees the most recently published value.
pub fn triple_buffer<T>() -> (r: (Writer<T>, Reader<T>))
    ensures
        r.0.wf(),
        r.1.wf(),
        r.0.spec_last() is None,
        r.1.spec_last() is None,
        r.0.linked_to(&r.1),
{
    let chan = Arc::new(Shared::new());

    let w = Writer::new(Arc::clone(&chan));
    let r = Reader::new(chan);
    (w, r)
}

/// Handles that share a store keep sharing it across any number of writes
/// and reads: the operations promise `same_store`, and this carries the
/// pairing of the two handles along.
pub proof fn lemma_linkage_stable<T>(
    w1: &Writer<T>,
    w2: &Writer<T>,
    r1: &Reader<T>,
    r2: &Reader<T>,
)
    requires
        w1.linked_to(r1),
        w2.same_store(w1),
        r2.same_store(r1),
    ensures
        w2.linked_to(r2),
{
}

/// The reading side of the [`triple_buffer`].
#[verifier::reject_recursive_types(T)]
pub struct Reader<T> {
    shared: Arc<Shared<T>>,
    read_idx: usize,
    last_seen: Option<T>,
}

impl<T> Reader<T> {
    /// The store is well formed and the held cell index is one of the three.
    pub closed spec fn wf(&self) -> bool {
        &&& (*self.shared).wf()
        &&& self.read_idx < 3
    }

    /// The value the reader holds from its most recent claim.
    pub closed spec fn spec_last(&self) -> Option<T> {
        self.last_seen
    }

    /// Both handles look into the same store.
    pub closed spec fn same_store(&self, other: &Reader<T>) -> bool {
        self.shared == other.shared
    }

    fn new(raw_mem: Arc<Shared<T>>) -> (r: Reader<T>)
        requires
            (*raw_mem).wf(),
        ensures
            r.wf(),
            r.spec_last() is None,
            r.shared == raw_mem,
    {
        Reader { shared: raw_mem, read_idx: 1, last_seen: None }
    }

    /// Read the most recently published value. Before the first write the
    /// guard is still clear and the read returns `None`. When the word's
    /// new-data flag is set, the reader claims the freshly published cell
    /// with one atomic swap — relinquishing its previous cell back to the
    /// rotation — and takes the value out of it; otherwise it re-reads the
    /// value it already holds, so multiple writes between two reads
    /// collapse into the latest one and repeated reads are stable.
    pub fn try_read(&mut self) -> (r: Option<T>) where T: Clone
        requires
            old(self).wf(),
        ensures
            final(self).wf(),
            final(self).same_store(old(self)),
            r is Some <==> final(self).spec_last() is Some,
            r is Some ==> cloned::<T>(final(self).spec_last()->Some_0, r->Some_0),
    {
        if self.shared.guard.has_data() {
            let word = self.shared.load_word();
            if has_new_data(word) {
                let prev = self.shared.swap_word(self.read_idx);
                let idx = adopt_index(prev);
                let taken = self.shared.mem[idx].take();
                self.record_claim(idx, taken);
            }
        }
        clone_out(&self.last_seen)
    }

    /// Record a claim, verified for every drawn value: the reader now holds
    /// the adopted cell, and its copy is exactly the value drawn from it.
    fn record_claim(&mut self, idx: usize, taken: Option<T>)
        requires
            old(self).wf(),
            idx < 3,
        ensures
            final(self).wf(),
            final(self).shared == old(self).shared,
            final(self).read_idx == idx,
            final(self).spec_last() == taken,
    {
        self.read_idx = idx;
        self.last_seen = taken;
    }
}

/// The writing side of the [`triple_buffer`].
#[verifier::reject_recursive_types(T)]
pub struct Writer<T> {
    shared: Arc<Shared<T>>,
    write_idx: usize,
    last_written: Option<T>,
}

impl<T> Writer<T> {
    /// The store is well formed and the owned cell index is one of the three.
    pub closed spec fn wf(&self) -> bool {
        &&& (*self.shared).wf()
        &&& self.write_idx < 3
    }

    /// The value most recently written by this writer.
    pub closed spec fn spec_last(&self) -> Option<T> {
        self.last_written
    }

    /// Both handles look into the same store.
    pub closed spec fn same_store(&self, other: &Writer<T>) -> bool {
        self.shared == other.shared
    }

    /// This writer publishes into exactly the store the reader watches.
    pub closed spec fn linked_to(&self, other: &Reader<T>) -> bool {
        self.shared == other.shared
    }

    fn new(raw_mem: Arc<Shared<T>>) -> (w: Writer<T>)
        requires
            (*raw_mem).wf(),
        ensures
            w.wf(),
            w.spec_last() is None,
            w.shared == raw_mem,
    {
        Writer { shared: raw_mem, write_idx: 2, last_written: None }
    }

    /// The writer's self-read: a copy of the most recently written value,
    /// without touching the shared word, or `None` if this writer has not
    /// written yet.
    pub fn try_read(&self) -> (r: Option<T>) where T: Clone
        ensures
            r is Some <==> self.spec_last() is Some,
            r is Some ==> cloned::<T>(self.spec_last()->Some_0, r->Some_0),
    {
        clone_out(&self.last_written)
    }

    /// Publish a value: store it into the cell this writer currently owns
    /// (overwriting — not queueing — whatever superseded value was there),
    /// swap the packed word to announce the cell together with the new-data
    /// flag, adopt the previously published cell as the next write target,
    /// and finally set the initial-write guard. Never fails; the whole
    /// operation is one pass with a single atomic read-modify-write.
    /// `publish_word` pins the word handed to the swap — exactly the owned
    /// cell's index under the new-data flag — and `adopt_index` pins the
    /// adoption of the swapped-out word's index bits.
    pub fn write(&mut self, data: T) where T: Clone
        requires
            old(self).wf(),
        ensures
            final(self).wf(),
            final(self).same_store(old(self)),
            final(self).spec_last() == Some(data),
    {
        let cell_idx = self.write_idx;
        // The reader gets the clone through the cell; the value itself
        // stays with the writer for its self-reads.
        self.shared.mem[cell_idx].store(Some(data.clone()));
        self.last_written = Some(data);

        let prev = self.shared.swap_word(publish_word(cell_idx));
        self.write_idx = adopt_index(prev);

        self.shared.guard.set_has_data();
    }
}

} // verus!
