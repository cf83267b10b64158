//! The admission queue (component C9): a bounded queue of sanitized
//! transactions. Submission fails fast when the queue is full or closed;
//! each tick drains up to a fixed number of transactions in arrival order.

use vstd::prelude::*;

verus! {

/// A sanitized transaction as the core sees it: a signature, an opaque
/// payload, and the set of account keys it declares it may touch.
#[derive(Debug)]
pub struct Transaction {
    pub signature: [u8; 64],
    pub payload: Vec<u8>,
    pub declared_keys: Vec<[u8; 32]>,
}

/// Mathematical value of a [`Transaction`].
#[verifier::ext_equal]
pub struct TransactionV {
    pub signature: Seq<u8>,
    pub payload: Seq<u8>,
    pub declared_keys: Seq<Seq<u8>>,
}

impl View for Transaction {
    type V = TransactionV;

    open spec fn view(&self) -> TransactionV {
        TransactionV {
            signature: self.signature@,
            payload: self.payload@,
            declared_keys: self.declared_keys@.map_values(|k: [u8; 32]| k@),
        }
    }
}

impl Clone for Transaction {
    fn clone(&self) -> (r: Self)
        ensures
            r@ == self@,
    {
        Transaction {
            signature: self.signature,
            payload: self.payload.clone(),
            declared_keys: self.declared_keys.clone(),
        }
    }
}

/// Why a submission was refused.
#[derive(Debug, Clone, Copy, PartialEq, Eq, Structural)]
pub enum SubmitError {
    /// The queue holds as many transactions as its capacity allows.
    Full,
    /// The queue no longer accepts submissions.
    Closed,
}

/// Bounded admission queue.
pub struct AdmissionQueue {
    items: Vec<Transaction>,
    capacity: usize,
    closed: bool,
}

impl AdmissionQueue {
    /// The queued transactions, oldest first.
    pub closed spec fn pending(&self) -> Seq<TransactionV> {
        self.items@.map_values(|t: Transaction| t@)
    }

    pub closed spec fn spec_capacity(&self) -> usize {
        self.capacity
    }

    pub closed spec fn is_closed(&self) -> bool {
        self.closed
    }

    pub closed spec fn wf(&self) -> bool {
        self.items@.len() <= self.capacity
    }

    pub fn new(capacity: usize) -> (r: Self)
        ensures
            r.wf(),
            r.pending() == Seq::<TransactionV>::empty(),
            r.spec_capacity() == capacity,
            !r.is_closed(),
    {
        let r = AdmissionQueue { items: Vec::new(), capacity, closed: false };
        proof {
            assert(r.pending() =~= Seq::<TransactionV>::empty());
        }
        r
    }

    /// Submit a transaction. It is accepted exactly when the queue is open
    /// and below capacity; a full queue answers `Full`, a closed one
    /// `Closed`, and neither changes the queue.
    pub fn try_submit(&mut self, tx: Transaction) -> (r: Result<(), SubmitError>)
        requires
            old(self).wf(),
        ensures
            final(self).wf(),
            final(self).spec_capacity() == old(self).spec_capacity(),
            final(self).is_closed() == old(self).is_closed(),
            match r {
                Ok(()) => {
                    &&& !old(self).is_closed()
                    &&& old(self).pending().len() < old(self).spec_capacity()
                    &&& final(self).pending() == old(self).pending().push(tx@)
                },
                Err(SubmitError::Closed) => old(self).is_closed() && final(self).pending() == old(
                    self,
                ).pending(),
                Err(SubmitError::Full) => {
                    &&& !old(self).is_closed()
                    &&& old(self).pending().len() >= old(self).spec_capacity()
                    &&& final(self).pending() == old(self).pending()
                },
            },
    {
        if self.closed {
            return Err(SubmitError::Closed);
        }
        if self.items.len() >= self.capacity {
            return Err(SubmitError::Full);
        }
        let ghost tv = tx@;
        self.items.push(tx);
        proof {
            assert(self.pending() =~= old(self).pending().push(tv));
        }
        Ok(())
    }

    /// Drain up to `max` transactions, oldest first; they leave the queue.
    pub fn drain(&mut self, max: usize) -> (r: Vec<Transaction>)
        requires
            old(self).wf(),
        ensures
            final(self).wf(),
            final(self).spec_capacity() == old(self).spec_capacity(),
            final(self).is_closed() == old(self).is_closed(),
            r@.map_values(|t: Transaction| t@) == old(self).pending().take(
                spec_min_usize(max, old(self).pending().len() as int),
            ),
            final(self).pending() == old(self).pending().skip(
                spec_min_usize(max, old(self).pending().len() as int),
            ),
    {
        let count: usize = if max < self.items.len() {
            max
        } else {
            self.items.len()
        };
        let mut r: Vec<Transaction> = Vec::new();
        let mut i: usize = 0;
        while i < count
            invariant
                count <= self.items@.len() + i,
                self.items@.len() + i == old(self).pending().len(),
                i <= count,
                r@.map_values(|t: Transaction| t@) == old(self).pending().take(i as int),
                self.pending() == old(self).pending().skip(i as int),
                self.spec_capacity() == old(self).spec_capacity(),
                self.is_closed() == old(self).is_closed(),
                self.wf(),
            decreases count - i,
        {
            let ghost pre = self.items@;
            let t = self.items.remove(0);
            let ghost tv = t@;
            proof {
                assert(pre.map_values(|t2: Transaction| t2@) == old(self).pending().skip(i as int));
                assert(pre.map_values(|t2: Transaction| t2@)[0] == pre[0]@);
                assert(tv == old(self).pending().skip(i as int)[0]);
                assert(old(self).pending()[i as int] == tv);
            }
            let ghost r_old = r@;
            r.push(t);
            proof {
                assert(r_old.map_values(|t2: Transaction| t2@).len() == r_old.len());
                assert(r_old.len() == i);
                assert(r@ == r_old.push(t));
                assert forall|j: int| #![trigger r@[j]] 0 <= j < r@.len() implies r@.map_values(
                    |t2: Transaction| t2@,
                )[j] == old(self).pending().take(i + 1)[j] by {
                    assert(r@.map_values(|t2: Transaction| t2@)[j] == r@[j]@);
                    if j < i {
                        assert(r@[j] == r_old[j]);
                        assert(r_old.map_values(|t2: Transaction| t2@)[j] == r_old[j]@);
                    } else {
                        assert(r@[j]@ == tv);
                    }
                }
                assert(r@.map_values(|t2: Transaction| t2@) =~= old(self).pending().take(i + 1));
                assert forall|j: int| 0 <= j < self.items@.len() implies self.items@[j] == pre[j
                    + 1] by {
                    assert(self.items@ == pre.remove(0));
                }
                assert forall|j: int| 0 <= j < self.pending().len() implies self.pending()[j]
                    == old(self).pending().skip(i + 1)[j] by {
                    assert(self.pending()[j] == self.items@[j]@);
                    assert(pre.map_values(|t2: Transaction| t2@)[j + 1] == pre[j + 1]@);
                    assert(pre[j + 1]@ == old(self).pending().skip(i as int)[j + 1]);
                }
                assert(self.pending() =~= old(self).pending().skip(i + 1));
            }
            i = i + 1;
        }
        proof {
            assert(count == spec_min_usize(max, old(self).pending().len() as int));
        }
        r
    }

    /// Close the queue: later submissions answer `Closed`.
    pub fn close(&mut self)
        requires
            old(self).wf(),
        ensures
            final(self).wf(),
            final(self).is_closed(),
            final(self).pending() == old(self).pending(),
            final(self).spec_capacity() == old(self).spec_capacity(),
    {
        self.closed = true;
    }

    /// Number of queued transactions.
    pub fn len(&self) -> (r: usize)
        ensures
            r == self.pending().len(),
    {
        self.items.len()
    }
}

/// The smaller of two sizes.
pub open spec fn spec_min_usize(a: usize, b: int) -> int {
    if a < b {
        a as int
    } else {
        b
    }
}

} // verus!
