//! Functional model of the triple buffer's rotation protocol, one
//! operation at a time, with proofs of the rotation invariant and of the
//! latest-value semantics.
//!
//! [`ExchangeModel`] captures the whole shared store of
//! [`crate::triple_buffer`] at one instant — the three cells, the packed
//! index/flag word, the initial-write guard — together with both handles'
//! thread-own state, and [`ExchangeModel::write_step`] /
//! [`ExchangeModel::read_step`] / [`ExchangeModel::writer_read_step`] are
//! exactly the transitions that [`crate::triple_buffer::Writer::write`],
//! [`crate::triple_buffer::Reader::try_read`] and
//! [`crate::triple_buffer::Writer::try_read`] perform on it. The lemmas
//! below prove that the three held indices stay a permutation of the three
//! cells — so the writer never touches a cell the reader holds — and that
//! a read always returns the most recently written value: writes between
//! two reads collapse into the latest one, repeated reads are stable, and
//! a read before the first write returns nothing.

use vstd::prelude::*;

verus! {

/// The exchange at one instant: the three storage cells, the published
/// index and new-data flag of the packed atomic word, the initial-write
/// guard, and the thread-own state of the two handles.
pub struct ExchangeModel<T> {
    /// The three storage cells.
    pub cells: Seq<Option<T>>,
    /// The cell index in the low bits of the packed word.
    pub pub_idx: nat,
    /// The new-data flag of the packed word: the published cell holds a
    /// value the reader has not claimed yet.
    pub fresh: bool,
    /// The cell the writer currently owns for its next write.
    pub widx: nat,
    /// The writer's own copy of the last value it wrote.
    pub wlocal: Option<T>,
    /// The cell the reader currently holds.
    pub ridx: nat,
    /// The reader's copy of the value it last claimed.
    pub rlocal: Option<T>,
    /// The initial-write guard: set once something has been published.
    pub written: bool,
}

impl<T> ExchangeModel<T> {
    /// The protocol invariant. The heart of it is the rotation invariant:
    /// the reader's held index, the writer's held index and the published
    /// index are a permutation of the three cells, so the writer never
    /// targets a cell the reader currently holds, and vice versa. Around
    /// it, the published cell carries the latest written value while the
    /// new-data flag is up, and the reader's copy is that value once it
    /// has claimed it.
    pub open spec fn inv(self) -> bool {
        &&& self.cells.len() == 3
        &&& self.widx < 3
        &&& self.ridx < 3
        &&& self.pub_idx < 3
        &&& self.widx != self.ridx
        &&& self.widx != self.pub_idx
        &&& self.ridx != self.pub_idx
        &&& (self.written <==> self.wlocal is Some)
        &&& (self.fresh ==> self.written)
        &&& (self.fresh ==> self.cells[self.pub_idx as int] == self.wlocal)
        &&& (!self.fresh && self.written ==> self.rlocal == self.wlocal)
    }

    /// One write: store the value into the owned cell (overwriting what
    /// was there), keep a copy for self-reads, publish the cell with the
    /// new-data flag by swapping the packed word, adopt the previously
    /// published cell as the next write target, and set the guard.
    pub open spec fn write_step(self, x: T) -> ExchangeModel<T> {
        ExchangeModel {
            cells: self.cells.update(self.widx as int, Some(x)),
            pub_idx: self.widx,
            fresh: true,
            widx: self.pub_idx,
            wlocal: Some(x),
            ridx: self.ridx,
            rlocal: self.rlocal,
            written: true,
        }
    }

    /// One read: nothing before the first write; otherwise claim the
    /// published cell if its value is still unclaimed — swapping the held
    /// cell back into the rotation and taking the value out — and in any
    /// case hand out the reader's copy.
    pub open spec fn read_step(self) -> (Option<T>, ExchangeModel<T>) {
        if !self.written {
            (None, self)
        } else if self.fresh {
            let j = self.pub_idx as int;
            let v = self.cells[j];
            (
                v,
                ExchangeModel {
                    cells: self.cells.update(j, None),
                    pub_idx: self.ridx,
                    fresh: false,
                    widx: self.widx,
                    wlocal: self.wlocal,
                    ridx: self.pub_idx,
                    rlocal: v,
                    written: self.written,
                },
            )
        } else {
            (self.rlocal, self)
        }
    }

    /// The writer's self-read: its own copy of the last written value,
    /// without touching anything shared.
    pub open spec fn writer_read_step(self) -> Option<T> {
        self.wlocal
    }
}

/// A freshly constructed exchange: all cells empty, the word publishing
/// cell 0 with no new data, the writer owning cell 2, the reader holding
/// cell 1, the guard clear.
pub open spec fn init<T>() -> ExchangeModel<T> {
    ExchangeModel {
        cells: seq![None, None, None],
        pub_idx: 0,
        fresh: false,
        widx: 2,
        wlocal: None,
        ridx: 1,
        rlocal: None,
        written: false,
    }
}

/// A fresh exchange satisfies the protocol invariant.
pub proof fn lemma_init_inv<T>()
    ensures
        init::<T>().inv(),
{
}

/// Law (exchange never-written state): a read before any write returns
/// nothing and changes nothing.
pub proof fn lemma_first_read_empty<T>()
    ensures
        init::<T>().read_step() == (None::<T>, init::<T>()),
{
}

/// Law (rotation under writes): a write preserves the protocol invariant —
/// in particular the three held indices stay a permutation of the three
/// cells — never fails, and leaves the writer's copy holding exactly the
/// written value with the guard set.
pub proof fn lemma_write_step<T>(m: ExchangeModel<T>, x: T)
    requires
        m.inv(),
    ensures
        m.write_step(x).inv(),
        m.write_step(x).wlocal == Some(x),
        m.write_step(x).written,
        m.write_step(x).ridx == m.ridx,
        m.write_step(x).rlocal == m.rlocal,
{
}

/// Law (rotation under reads): a read preserves the protocol invariant and
/// never disturbs the writer's own state.
pub proof fn lemma_read_step<T>(m: ExchangeModel<T>)
    requires
        m.inv(),
    ensures
        m.read_step().1.inv(),
        m.read_step().1.widx == m.widx,
        m.read_step().1.wlocal == m.wlocal,
        m.read_step().1.written == m.written,
{
}

/// Law (reads return the latest value): a read returns exactly the last
/// value ever written — `None` before the first write. Writes between two
/// reads are collapsed: only the most recent one is ever observable.
pub proof fn lemma_read_latest<T>(m: ExchangeModel<T>)
    requires
        m.inv(),
    ensures
        m.read_step().0 == m.wlocal,
{
}

/// Law (exchange collapses intermediate writes): whatever was written or
/// read before, after any number of further writes ending in `write(x)`
/// the next read returns `x`.
pub proof fn lemma_write_then_read<T>(m: ExchangeModel<T>, x: T)
    requires
        m.inv(),
    ensures
        m.write_step(x).read_step().0 == Some(x),
{
    lemma_write_step(m, x);
    lemma_read_latest(m.write_step(x));
}

/// Law (repeated read stability): with no write in between, a second read
/// returns the same value as the first and leaves the exchange exactly as
/// the first read left it — in particular it does not become empty again.
pub proof fn lemma_read_stable<T>(m: ExchangeModel<T>)
    requires
        m.inv(),
    ensures
        ({
            let (r1, m1) = m.read_step();
            let (r2, m2) = m1.read_step();
            &&& r2 == r1
            &&& m2 == m1
        }),
{
    lemma_read_step(m);
    lemma_read_latest(m);
    lemma_read_latest(m.read_step().1);
}

/// Law (writer self-read): the writer's own read returns exactly the last
/// value it wrote — `None` before the first write — without touching the
/// shared state.
pub proof fn lemma_self_read<T>(m: ExchangeModel<T>, x: T)
    requires
        m.inv(),
    ensures
        m.writer_read_step() == m.wlocal,
        m.write_step(x).writer_read_step() == Some(x),
{
    lemma_write_step(m, x);
}

} // verus!
