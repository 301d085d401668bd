//! Functional model of the queue's slot/flag/cursor protocol, one operation
//! at a time, with proofs that the protocol implements a lossless FIFO.
//!
//! [`QueueModel`] captures the whole shared store of [`crate::spsc`] at one
//! instant — every slot's cell and occupancy flag together with both
//! private cursors — and [`QueueModel::send_step`] / [`QueueModel::recv_step`]
//! are exactly the transitions that [`crate::spsc::Sender::try_send`] and
//! [`crate::spsc::Receiver::try_recv`] perform on it: check the flag of the
//! slot at the cursor, then move one value and perform the one flag
//! transition. The lemmas below prove the protocol invariant, the
//! full/empty boundary, and that any interleaving of sends and receives
//! hands the items out in exactly the order they went in.

use vstd::prelude::*;
use vstd::arithmetic::div_mod::lemma_fundamental_div_mod;
use vstd::arithmetic::div_mod::lemma_fundamental_div_mod_converse_mod;
use vstd::arithmetic::div_mod::lemma_mod_division_less_than_divisor;

verus! {

/// The queue store at one instant: the slots' storage cells, their
/// occupancy flags, and the two private cursors. Capacity is the number of
/// flags; the model does not need the power-of-two restriction — the ring
/// protocol is FIFO for any positive capacity, and construction merely
/// restricts capacities so that the modulo can be a bit mask.
pub struct QueueModel<T> {
    /// The slots' storage cells.
    pub cells: Seq<Option<T>>,
    /// The slots' occupancy flags: `true` means the slot carries a value
    /// the receiver has not drained yet.
    pub flags: Seq<bool>,
    /// The receiver's private cursor.
    pub head: nat,
    /// The sender's private cursor.
    pub tail: nat,
}

impl<T> QueueModel<T> {
    /// The number of slots.
    pub open spec fn cap(self) -> nat {
        self.flags.len()
    }

    /// The unique cursor position in `[head, head + cap)` that lands on
    /// slot `j`.
    pub open spec fn pos_of(self, j: int) -> int {
        let base = (self.cap() as int) * ((self.head as int) / (self.cap() as int));
        if base + j >= self.head {
            base + j
        } else {
            base + j + self.cap()
        }
    }

    /// The protocol invariant: the cursors chase each other around the
    /// ring, never more than one lap apart, and a slot's flag is set
    /// exactly when the slot holds an undrained value, i.e. when its
    /// unique representative position ahead of the receiver has already
    /// been passed by the sender.
    pub open spec fn inv(self) -> bool {
        &&& self.cells.len() == self.cap()
        &&& self.cap() >= 1
        &&& self.head <= self.tail <= self.head + self.cap()
        &&& forall|j: int|
            0 <= j < self.cap() ==> ((#[trigger] self.flags[j]) <==> self.pos_of(j) < self.tail)
        &&& forall|j: int|
            0 <= j < self.cap() && self.pos_of(j) < self.tail ==> (#[trigger] self.cells[j]) is Some
    }

    /// The logical queue contents, oldest first.
    pub open spec fn contents(self) -> Seq<T> {
        Seq::new(
            (self.tail - self.head) as nat,
            |i: int| self.cells[(self.head + i) % (self.cap() as int)]->Some_0,
        )
    }

    /// One attempted send: check the flag of the slot at the write cursor;
    /// if it is still set the queue is full and nothing changes, otherwise
    /// store the value, set the flag, and advance the cursor.
    pub open spec fn send_step(self, x: T) -> (bool, QueueModel<T>) {
        let j = (self.tail as int) % (self.cap() as int);
        if self.flags[j] {
            (false, self)
        } else {
            (
                true,
                QueueModel {
                    cells: self.cells.update(j, Some(x)),
                    flags: self.flags.update(j, true),
                    head: self.head,
                    tail: self.tail + 1,
                },
            )
        }
    }

    /// The receiver's peek: the value of the slot at the read cursor if its
    /// flag is set, without clearing the flag or advancing the cursor.
    pub open spec fn peek_step(self) -> Option<T> {
        let j = (self.head as int) % (self.cap() as int);
        if !self.flags[j] {
            None
        } else {
            self.cells[j]
        }
    }

    /// One attempted receive: check the flag of the slot at the read
    /// cursor; if it is clear the queue is empty and nothing changes,
    /// otherwise hand out the slot's value, clear the flag, and advance
    /// the cursor.
    pub open spec fn recv_step(self) -> (Option<T>, QueueModel<T>) {
        let j = (self.head as int) % (self.cap() as int);
        if !self.flags[j] {
            (None, self)
        } else {
            (
                self.cells[j],
                QueueModel {
                    cells: self.cells,
                    flags: self.flags.update(j, false),
                    head: self.head + 1,
                    tail: self.tail,
                },
            )
        }
    }
}

/// A freshly constructed store: all cells empty, all flags clear, both
/// cursors at zero.
pub open spec fn init<T>(cap: nat) -> QueueModel<T> {
    QueueModel {
        cells: Seq::new(cap, |i: int| None),
        flags: Seq::new(cap, |i: int| false),
        head: 0,
        tail: 0,
    }
}

/// A fresh store satisfies the protocol invariant and is empty.
pub proof fn lemma_init_inv<T>(cap: nat)
    requires
        cap >= 1,
    ensures
        init::<T>(cap).inv(),
        init::<T>(cap).cap() == cap,
        init::<T>(cap).contents() == Seq::<T>::empty(),
{
    assert(init::<T>(cap).contents() =~= Seq::<T>::empty());
}

/// Two positions less than one lap apart that land on the same slot are
/// the same position.
proof fn lemma_unique_residue(a: int, b: int, cap: int)
    requires
        cap >= 1,
        0 <= a <= b,
        b < a + cap,
        a % cap == b % cap,
    ensures
        a == b,
{
    lemma_fundamental_div_mod(a, cap);
    lemma_mod_division_less_than_divisor(a, cap);
    let q = a / cap;
    let r = a % cap;
    let d = b - a;
    assert(a == cap * q + r);
    if r + d < cap {
        assert(b == q * cap + (r + d)) by (nonlinear_arith)
            requires b == a + d && a == cap * q + r;
        lemma_fundamental_div_mod_converse_mod(b, cap, q, r + d);
    } else {
        assert(b == (q + 1) * cap + (r + d - cap)) by (nonlinear_arith)
            requires b == a + d && a == cap * q + r;
        lemma_fundamental_div_mod_converse_mod(b, cap, q + 1, r + d - cap);
    }
}

/// `pos_of(j)` is the position in the receiver's current lap that lands on
/// slot `j`.
proof fn lemma_pos_of_props<T>(m: QueueModel<T>, j: int)
    requires
        m.cap() >= 1,
        0 <= j < m.cap(),
    ensures
        m.head <= m.pos_of(j) < m.head + m.cap(),
        m.pos_of(j) % (m.cap() as int) == j,
{
    let cap = m.cap() as int;
    let head = m.head as int;
    lemma_fundamental_div_mod(head, cap);
    lemma_mod_division_less_than_divisor(head, cap);
    let q = head / cap;
    let base = cap * q;
    if base + j >= head {
        assert(q * cap + j == base + j) by (nonlinear_arith)
            requires base == cap * q;
        lemma_fundamental_div_mod_converse_mod(base + j, cap, q, j);
    } else {
        assert((q + 1) * cap + j == base + j + cap) by (nonlinear_arith)
            requires base == cap * q;
        lemma_fundamental_div_mod_converse_mod(base + j + cap, cap, q + 1, j);
    }
}

/// A position in the receiver's current lap is recovered from the slot it
/// lands on.
proof fn lemma_pos_of_cursor<T>(m: QueueModel<T>, k: int)
    requires
        m.cap() >= 1,
        m.head <= k < m.head + m.cap(),
    ensures
        m.pos_of(k % (m.cap() as int)) == k,
{
    let cap = m.cap() as int;
    let j = k % cap;
    lemma_mod_division_less_than_divisor(k, cap);
    lemma_pos_of_props(m, j);
    if m.pos_of(j) <= k {
        lemma_unique_residue(m.pos_of(j), k, cap);
    } else {
        lemma_unique_residue(k, m.pos_of(j), cap);
    }
}

/// Law: one send preserves the protocol invariant, is accepted exactly
/// when the queue holds fewer items than its capacity (the "full"
/// boundary), appends the item at the end of the logical contents when
/// accepted, and changes nothing when rejected.
pub proof fn lemma_send_step<T>(m: QueueModel<T>, x: T)
    requires
        m.inv(),
    ensures
        ({
            let (accepted, m2) = m.send_step(x);
            &&& m2.inv()
            &&& m2.cap() == m.cap()
            &&& m2.head == m.head
            &&& (accepted <==> m.contents().len() < m.cap())
            &&& (accepted ==> m2.contents() == m.contents().push(x))
            &&& (!accepted ==> m2 == m)
        }),
{
    let cap = m.cap() as int;
    let head = m.head as int;
    let tail = m.tail as int;
    let j = tail % cap;
    lemma_mod_division_less_than_divisor(tail, cap);
    if tail == head + cap {
        // Full: the slot at the write cursor is the one the receiver is
        // still about to drain.
        lemma_pos_of_cursor(m, head);
        vstd::arithmetic::div_mod::lemma_mod_add_multiples_vanish(head, cap);
        assert(j == head % cap);
        assert(m.flags[j]);
    } else {
        lemma_pos_of_cursor(m, tail);
        assert(!m.flags[j]);
        let (accepted, m2) = m.send_step(x);
        assert forall|j2: int| 0 <= j2 < m2.cap() implies ((#[trigger] m2.flags[j2]) <==> m2.pos_of(
            j2,
        ) < m2.tail) by {
            lemma_pos_of_props(m, j2);
            assert(m.pos_of(j2) == m2.pos_of(j2));
            if j2 != j {
                if m.pos_of(j2) == tail {
                    lemma_pos_of_cursor(m, tail);
                    assert(j2 == j);
                }
            }
        }
        assert forall|j2: int|
            0 <= j2 < m2.cap() && m2.pos_of(j2) < m2.tail implies (#[trigger] m2.cells[j2])
            is Some by {
            lemma_pos_of_props(m, j2);
            if j2 != j {
                if m.pos_of(j2) == tail {
                    lemma_pos_of_cursor(m, tail);
                    assert(j2 == j);
                }
            }
        }
        assert(m2.inv());
        assert forall|i: int| 0 <= i < m2.contents().len() implies m2.contents()[i] == m.contents()
            .push(x)[i] by {
            if i < m.contents().len() {
                lemma_pos_of_cursor(m, head + i);
                lemma_mod_division_less_than_divisor(head + i, cap);
                if (head + i) % cap == j {
                    // Two distinct positions of one lap cannot share a slot.
                    assert(m.pos_of(j) == head + i);
                    lemma_pos_of_cursor(m, tail);
                    assert(false);
                }
            } else {
                assert((head + i) % cap == j);
            }
        }
        assert(m2.contents() =~= m.contents().push(x));
    }
}

/// Law: one receive preserves the protocol invariant, returns a value
/// exactly when the queue is nonempty (the "empty" boundary), hands out
/// the oldest item and removes it from the logical contents, and changes
/// nothing when the queue is empty.
pub proof fn lemma_recv_step<T>(m: QueueModel<T>)
    requires
        m.inv(),
    ensures
        ({
            let (r, m2) = m.recv_step();
            &&& m2.inv()
            &&& m2.cap() == m.cap()
            &&& (r is Some <==> m.contents().len() > 0)
            &&& (r is Some ==> r == Some(m.contents().first()) && m2.contents() == m.contents()
                .drop_first())
            &&& (r is None ==> m2 == m)
        }),
{
    let cap = m.cap() as int;
    let head = m.head as int;
    let tail = m.tail as int;
    let j = head % cap;
    lemma_mod_division_less_than_divisor(head, cap);
    lemma_pos_of_cursor(m, head);
    assert(m.pos_of(j) == head);
    if head < tail {
        assert(m.flags[j]);
        let (r, m2) = m.recv_step();
        assert(m.cells[j] is Some);
        assert(m.contents()[0] == m.cells[j]->Some_0);
        // The new head's lap assigns slot j to the position one lap later.
        assert forall|j2: int| 0 <= j2 < m2.cap() implies ((#[trigger] m2.flags[j2]) <==> m2.pos_of(
            j2,
        ) < m2.tail) by {
            lemma_pos_of_props(m, j2);
            lemma_pos_of_props(m2, j2);
            if j2 == j {
                // In the new lap, slot j sits at head + cap, which the
                // sender has not reached.
                vstd::arithmetic::div_mod::lemma_mod_add_multiples_vanish(head, cap);
                lemma_unique_residue_pair(m2, head + cap, j2);
            } else {
                // Slot j2's representative did not move.
                assert(m.pos_of(j2) != head);
                lemma_unique_residue_pair(m2, m.pos_of(j2), j2);
            }
        }
        assert forall|j2: int|
            0 <= j2 < m2.cap() && m2.pos_of(j2) < m2.tail implies (#[trigger] m2.cells[j2])
            is Some by {
            lemma_pos_of_props(m, j2);
            lemma_pos_of_props(m2, j2);
            if j2 == j {
                vstd::arithmetic::div_mod::lemma_mod_add_multiples_vanish(head, cap);
                lemma_unique_residue_pair(m2, head + cap, j2);
            } else {
                assert(m.pos_of(j2) != head);
                lemma_unique_residue_pair(m2, m.pos_of(j2), j2);
            }
        }
        assert(m2.inv());
        assert forall|i: int| 0 <= i < m2.contents().len() implies m2.contents()[i] == m.contents()
            .drop_first()[i] by {
            assert((head + 1 + i) % cap == (head + (i + 1)) % cap);
        }
        assert(m2.contents() =~= m.contents().drop_first());
    } else {
        assert(!m.flags[j]);
        assert(m.contents().len() == 0);
    }
}

/// Law (peek): a peek observes exactly the item the next receive will hand
/// out — the oldest item, or nothing when the queue is empty — and by
/// construction it changes no state, so repeated peeks observe the same
/// item until a receive intervenes.
pub proof fn lemma_peek_step<T>(m: QueueModel<T>)
    requires
        m.inv(),
    ensures
        m.peek_step() == m.recv_step().0,
        m.peek_step() is Some <==> m.contents().len() > 0,
        m.peek_step() is Some ==> m.peek_step() == Some(m.contents().first()),
{
    lemma_recv_step(m);
}

/// One operation of an interleaving: an attempted send of a value or an
/// attempted receive.
pub enum QueueOp<T> {
    Enqueue(T),
    Dequeue,
}

/// Run a sequence of operations against a store, front to back, collecting
/// the values of the accepted sends and the values handed out by the
/// successful receives, in order.
pub open spec fn run<T>(m: QueueModel<T>, ops: Seq<QueueOp<T>>) -> (QueueModel<T>, Seq<T>, Seq<T>)
    decreases ops.len(),
{
    if ops.len() == 0 {
        (m, Seq::empty(), Seq::empty())
    } else {
        match ops.first() {
            QueueOp::Enqueue(x) => {
                let (accepted, m1) = m.send_step(x);
                let (mf, acc, rcv) = run(m1, ops.drop_first());
                (
                    mf,
                    if accepted {
                        seq![x] + acc
                    } else {
                        acc
                    },
                    rcv,
                )
            },
            QueueOp::Dequeue => {
                let (r, m1) = m.recv_step();
                let (mf, acc, rcv) = run(m1, ops.drop_first());
                (
                    mf,
                    acc,
                    if r is Some {
                        seq![r->Some_0] + rcv
                    } else {
                        rcv
                    },
                )
            },
        }
    }
}

/// Law (queue FIFO order): under any interleaving of sends and receives,
/// the values received so far followed by what is still in the queue are
/// exactly the values whose sends were accepted, in send order, behind
/// whatever the queue already held. In particular the received sequence is
/// always a prefix of the accepted sequence, and the counts match once the
/// queue is drained (see [`lemma_fifo_from_empty`]).
pub proof fn lemma_fifo_order<T>(m: QueueModel<T>, ops: Seq<QueueOp<T>>)
    requires
        m.inv(),
    ensures
        ({
            let (mf, accepted, received) = run(m, ops);
            &&& mf.inv()
            &&& received + mf.contents() == m.contents() + accepted
        }),
    decreases ops.len(),
{
    let (mf, accepted, received) = run(m, ops);
    if ops.len() == 0 {
        assert(received + mf.contents() =~= m.contents() + accepted);
    } else {
        match ops.first() {
            QueueOp::Enqueue(x) => {
                lemma_send_step(m, x);
                let (ok, m1) = m.send_step(x);
                lemma_fifo_order(m1, ops.drop_first());
                let (mf1, acc1, rcv1) = run(m1, ops.drop_first());
                if ok {
                    assert(accepted == seq![x] + acc1);
                    assert(received == rcv1);
                    assert(mf == mf1);
                    assert(rcv1 + mf1.contents() == m1.contents() + acc1);
                    assert(m1.contents() == m.contents().push(x));
                    assert(m.contents().push(x) =~= m.contents() + seq![x]);
                    assert((m.contents() + seq![x]) + acc1 =~= m.contents() + (seq![x] + acc1));
                    assert(received + mf.contents() == m.contents() + accepted);
                } else {
                    assert(received + mf.contents() == m.contents() + accepted);
                }
            },
            QueueOp::Dequeue => {
                lemma_recv_step(m);
                let (r, m1) = m.recv_step();
                lemma_fifo_order(m1, ops.drop_first());
                let (mf1, acc1, rcv1) = run(m1, ops.drop_first());
                if r is Some {
                    let r0 = r->Some_0;
                    assert(received == seq![r0] + rcv1);
                    assert(rcv1 + mf1.contents() == m1.contents() + acc1);
                    assert(m.contents() =~= seq![r0] + m1.contents());
                    assert((seq![r0] + rcv1) + mf1.contents() =~= seq![r0] + (rcv1
                        + mf1.contents()));
                    assert(seq![r0] + (m1.contents() + acc1) =~= (seq![r0] + m1.contents())
                        + acc1);
                    assert(received + mf.contents() == m.contents() + accepted);
                } else {
                    assert(received + mf.contents() == m.contents() + accepted);
                }
            },
        }
    }
}

/// Law (queue FIFO order, from a fresh queue): starting empty, every
/// receive returns items in the exact order their sends were accepted, and
/// once the queue is drained the number of items ever returned equals the
/// number of successful sends.
pub proof fn lemma_fifo_from_empty<T>(m: QueueModel<T>, ops: Seq<QueueOp<T>>)
    requires
        m.inv(),
        m.contents() == Seq::<T>::empty(),
    ensures
        ({
            let (mf, accepted, received) = run(m, ops);
            &&& received.len() <= accepted.len()
            &&& received == accepted.take(received.len() as int)
            &&& (mf.contents().len() == 0 ==> received == accepted)
        }),
{
    lemma_fifo_order(m, ops);
    let (mf, accepted, received) = run(m, ops);
    assert(received + mf.contents() =~= accepted);
    assert(received =~= accepted.take(received.len() as int));
    if mf.contents().len() == 0 {
        assert(received =~= accepted);
    }
}

/// The sends of a sequence of values, in order.
pub open spec fn enqueues<T>(xs: Seq<T>) -> Seq<QueueOp<T>> {
    Seq::new(xs.len(), |i: int| QueueOp::Enqueue(xs[i]))
}

/// `n` receives in a row.
pub open spec fn dequeues<T>(n: nat) -> Seq<QueueOp<T>> {
    Seq::new(n, |i: int| QueueOp::Dequeue)
}

/// Running one sequence of operations after another composes: the final
/// store is the second run's final store, and the collected values are the
/// concatenations.
proof fn lemma_run_concat<T>(m: QueueModel<T>, ops1: Seq<QueueOp<T>>, ops2: Seq<QueueOp<T>>)
    ensures
        ({
            let (m1, acc1, rcv1) = run(m, ops1);
            let (m2, acc2, rcv2) = run(m1, ops2);
            run(m, ops1 + ops2) == (m2, acc1 + acc2, rcv1 + rcv2)
        }),
    decreases ops1.len(),
{
    let (m1, acc1, rcv1) = run(m, ops1);
    let (m2, acc2, rcv2) = run(m1, ops2);
    if ops1.len() == 0 {
        assert(ops1 + ops2 =~= ops2);
        assert(acc1 + acc2 =~= acc2);
        assert(rcv1 + rcv2 =~= rcv2);
    } else {
        assert((ops1 + ops2).first() == ops1.first());
        assert((ops1 + ops2).drop_first() =~= ops1.drop_first() + ops2);
        match ops1.first() {
            QueueOp::Enqueue(x) => {
                let (ok, ma) = m.send_step(x);
                lemma_run_concat(ma, ops1.drop_first(), ops2);
                let (mb, accb, rcvb) = run(ma, ops1.drop_first());
                if ok {
                    assert((seq![x] + accb) + acc2 =~= seq![x] + (accb + acc2));
                }
            },
            QueueOp::Dequeue => {
                let (r, ma) = m.recv_step();
                lemma_run_concat(ma, ops1.drop_first(), ops2);
                let (mb, accb, rcvb) = run(ma, ops1.drop_first());
                if r is Some {
                    assert((seq![r->Some_0] + rcvb) + rcv2 =~= seq![r->Some_0] + (rcvb + rcv2));
                }
            },
        }
    }
}

/// Sending a batch that fits into the remaining room is accepted in full
/// and appends the batch to the contents in order.
proof fn lemma_enqueue_all<T>(m: QueueModel<T>, xs: Seq<T>)
    requires
        m.inv(),
        m.contents().len() + xs.len() <= m.cap(),
    ensures
        ({
            let (mf, accepted, received) = run(m, enqueues(xs));
            &&& mf.inv()
            &&& accepted == xs
            &&& received == Seq::<T>::empty()
            &&& mf.contents() == m.contents() + xs
        }),
    decreases xs.len(),
{
    let (mf, accepted, received) = run(m, enqueues(xs));
    if xs.len() == 0 {
        assert(enqueues(xs) =~= Seq::<QueueOp<T>>::empty());
        assert(accepted =~= xs);
        assert(mf.contents() =~= m.contents() + xs);
    } else {
        let x = xs.first();
        assert(enqueues(xs).first() == QueueOp::Enqueue(x));
        lemma_send_step(m, x);
        let (ok, m1) = m.send_step(x);
        assert(ok);
        assert(enqueues(xs).drop_first() =~= enqueues(xs.drop_first()));
        lemma_enqueue_all(m1, xs.drop_first());
        let (mf1, acc1, rcv1) = run(m1, enqueues(xs.drop_first()));
        assert(accepted =~= seq![x] + acc1);
        assert(seq![x] + xs.drop_first() =~= xs);
        assert(accepted =~= xs);
        assert(mf.contents() =~= m.contents() + xs);
    }
}

/// Draining a queue hands out its whole contents, in order, and leaves it
/// empty.
proof fn lemma_dequeue_all<T>(m: QueueModel<T>)
    requires
        m.inv(),
    ensures
        ({
            let (mf, accepted, received) = run(m, dequeues(m.contents().len()));
            &&& mf.inv()
            &&& accepted == Seq::<T>::empty()
            &&& received == m.contents()
            &&& mf.contents() == Seq::<T>::empty()
        }),
    decreases m.contents().len(),
{
    let n = m.contents().len();
    let (mf, accepted, received) = run(m, dequeues::<T>(n));
    if n == 0 {
        assert(dequeues::<T>(n) =~= Seq::<QueueOp<T>>::empty());
        assert(received =~= m.contents());
        assert(accepted =~= Seq::<T>::empty());
    } else {
        lemma_recv_step(m);
        let (r, m1) = m.recv_step();
        assert(dequeues::<T>(n).first() == QueueOp::<T>::Dequeue);
        assert(dequeues::<T>(n).drop_first() =~= dequeues::<T>(m1.contents().len()));
        lemma_dequeue_all(m1);
        assert(received =~= seq![m.contents().first()] + m.contents().drop_first());
        assert(received =~= m.contents());
        assert(accepted =~= Seq::<T>::empty());
    }
}

/// Law (queue single-thread round trip): starting from an empty queue,
/// pushing any sequence of at most `cap` values and then popping them all
/// back with no interleaving succeeds completely and returns exactly the
/// pushed sequence; one further receive reports the queue empty.
pub proof fn lemma_round_trip<T>(m: QueueModel<T>, xs: Seq<T>)
    requires
        m.inv(),
        m.contents() == Seq::<T>::empty(),
        xs.len() <= m.cap(),
    ensures
        ({
            let (mf, accepted, received) = run(m, enqueues(xs) + dequeues(xs.len()));
            &&& accepted == xs
            &&& received == xs
            &&& mf.inv()
            &&& mf.contents() == Seq::<T>::empty()
            &&& mf.recv_step().0 is None
        }),
{
    lemma_enqueue_all(m, xs);
    let (m1, acc1, rcv1) = run(m, enqueues(xs));
    assert(m1.contents() =~= xs);
    lemma_dequeue_all(m1);
    lemma_run_concat(m, enqueues(xs), dequeues::<T>(xs.len()));
    let (mf, accepted, received) = run(m, enqueues(xs) + dequeues::<T>(xs.len()));
    assert(accepted =~= xs);
    assert(received =~= xs);
    lemma_recv_step(mf);
}

/// A position of the model's current lap with the residue of slot `j` is
/// exactly `pos_of(j)`.
proof fn lemma_unique_residue_pair<T>(m: QueueModel<T>, k: int, j: int)
    requires
        m.cap() >= 1,
        0 <= j < m.cap(),
        m.head <= k < m.head + m.cap(),
        k % (m.cap() as int) == j,
    ensures
        m.pos_of(j) == k,
{
    lemma_pos_of_cursor(m, k);
}

} // verus!
