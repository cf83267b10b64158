//! The block producer (component C4's loop, split at its waits): one half
//! drains the admission queue for the slot, the caller executes the drained
//! transactions through the pluggable processor, and the other half commits
//! the outcomes, advances the slot, and assembles the block update that goes
//! to subscribers.

use vstd::prelude::*;
use crate::account::{Account, AccountV};
use crate::processor::{
    commit_outcomes, outcome_accepted, ExecutionOutcome, L2Processor, TransactionResult,
};
use crate::queue::{spec_min_usize, AdmissionQueue, SubmitError, Transaction, TransactionV};
use crate::{BLOCK_TIME_MS, MAX_TXS_PER_BLOCK};

verus! {

/// Tick period, per-slot transaction ceiling, and logging verbosity.
#[derive(Debug, Clone, Copy)]
pub struct BlockProducerConfig {
    pub block_time_ms: u64,
    pub max_txs_per_block: usize,
    pub verbose: bool,
}

impl Default for BlockProducerConfig {
    fn default() -> (r: Self)
        ensures
            r.block_time_ms == BLOCK_TIME_MS,
            r.max_txs_per_block == MAX_TXS_PER_BLOCK,
            !r.verbose,
    {
        BlockProducerConfig {
            block_time_ms: BLOCK_TIME_MS,
            max_txs_per_block: MAX_TXS_PER_BLOCK,
            verbose: false,
        }
    }
}

/// What one finished slot reports to subscribers.
#[derive(Debug)]
pub struct BlockUpdate {
    pub slot: u64,
    pub blockhash: [u8; 32],
    pub transaction_count: usize,
    pub modified_accounts: Vec<([u8; 32], Account)>,
    pub transaction_results: Vec<TransactionResult>,
    pub processing_time_us: u64,
}

/// The modified-account pairs of the successful results, concatenated in
/// result order: what a slot's block update reports to subscribers.
pub open spec fn spec_modified_concat(results: Seq<TransactionResult>) -> Seq<(Seq<u8>, AccountV)>
    decreases results.len(),
{
    if results.len() == 0 {
        Seq::empty()
    } else {
        spec_modified_concat(results.drop_last()) + (if results.last().success {
            results.last().modified_accounts@.map_values(|p: ([u8; 32], Account)| (p.0@, p.1@))
        } else {
            Seq::empty()
        })
    }
}

/// Capacity of the admission queue feeding the producer.
pub const ADMISSION_QUEUE_CAPACITY: usize = 1024;

/// The block producer: the processor, its admission queue, and the running
/// flag the loop polls.
pub struct BlockProducer {
    processor: L2Processor,
    queue: AdmissionQueue,
    config: BlockProducerConfig,
    running: bool,
}

impl BlockProducer {
    pub closed spec fn spec_processor(&self) -> L2Processor {
        self.processor
    }

    pub closed spec fn pending(&self) -> Seq<TransactionV> {
        self.queue.pending()
    }

    pub closed spec fn spec_config(&self) -> BlockProducerConfig {
        self.config
    }

    pub closed spec fn spec_running(&self) -> bool {
        self.running
    }

    pub closed spec fn wf(&self) -> bool {
        &&& self.processor.wf()
        &&& self.queue.wf()
        &&& self.queue.spec_capacity() == ADMISSION_QUEUE_CAPACITY
        &&& !self.queue.is_closed()
        &&& self.config.max_txs_per_block > 0
    }

    pub fn new(processor: L2Processor, config: BlockProducerConfig) -> (r: Self)
        requires
            processor.wf(),
            config.max_txs_per_block > 0,
        ensures
            r.wf(),
            r.spec_processor() == processor,
            r.pending() == Seq::<TransactionV>::empty(),
            r.spec_config() == config,
            !r.spec_running(),
    {
        BlockProducer {
            processor,
            queue: AdmissionQueue::new(ADMISSION_QUEUE_CAPACITY),
            config,
            running: false,
        }
    }

    /// Submit a transaction for a coming slot; a full queue refuses it.
    pub fn try_submit(&mut self, tx: Transaction) -> (r: Result<(), SubmitError>)
        requires
            old(self).wf(),
        ensures
            final(self).wf(),
            final(self).spec_processor() == old(self).spec_processor(),
            final(self).spec_config() == old(self).spec_config(),
            final(self).spec_running() == old(self).spec_running(),
            match r {
                Ok(()) => old(self).pending().len() < ADMISSION_QUEUE_CAPACITY
                    && final(self).pending() == old(self).pending().push(tx@),
                Err(SubmitError::Full) => old(self).pending().len() >= ADMISSION_QUEUE_CAPACITY
                    && final(self).pending() == old(self).pending(),
                Err(SubmitError::Closed) => false,
            },
    {
        self.queue.try_submit(tx)
    }

    /// Mark the loop running.
    pub fn start(&mut self)
        requires
            old(self).wf(),
        ensures
            final(self).wf(),
            final(self).spec_running(),
            final(self).spec_processor() == old(self).spec_processor(),
            final(self).pending() == old(self).pending(),
    {
        self.running = true;
    }

    /// Ask the loop to stop at the next tick boundary.
    pub fn stop(&mut self)
        requires
            old(self).wf(),
        ensures
            final(self).wf(),
            !final(self).spec_running(),
            final(self).spec_processor() == old(self).spec_processor(),
            final(self).pending() == old(self).pending(),
    {
        self.running = false;
    }

    /// Is the loop running?
    pub fn is_running(&self) -> (r: bool)
        ensures
            r == self.spec_running(),
    {
        self.running
    }

    /// The current slot.
    pub fn current_slot(&self) -> (r: u64)
        ensures
            r == self.spec_processor().spec_slot(),
    {
        self.processor.current_slot()
    }

    /// The current blockhash.
    pub fn current_blockhash(&self) -> (r: [u8; 32])
        ensures
            r@ == self.spec_processor().spec_blockhash(),
    {
        self.processor.current_blockhash()
    }

    /// Drain the slot's transactions: up to the per-slot ceiling, oldest
    /// first, leaving the rest queued.
    pub fn drain_for_slot(&mut self) -> (r: Vec<Transaction>)
        requires
            old(self).wf(),
        ensures
            final(self).wf(),
            final(self).spec_processor() == old(self).spec_processor(),
            final(self).spec_config() == old(self).spec_config(),
            final(self).spec_running() == old(self).spec_running(),
            r@.map_values(|t: Transaction| t@) == old(self).pending().take(
                spec_min_usize(
                    old(self).spec_config().max_txs_per_block,
                    old(self).pending().len() as int,
                ),
            ),
            final(self).pending() == old(self).pending().skip(
                spec_min_usize(
                    old(self).spec_config().max_txs_per_block,
                    old(self).pending().len() as int,
                ),
            ),
    {
        self.queue.drain(self.config.max_txs_per_block)
    }

    /// Finish the slot: commit each transaction's outcome, advance the
    /// clock, and assemble the update — stamped with the new slot and
    /// blockhash — whose results are exactly the commit's results and whose
    /// modified accounts are those of the successful ones, in order.
    pub fn finish_slot(
        &mut self,
        transactions: &Vec<Transaction>,
        outcomes: Vec<ExecutionOutcome>,
        processing_time_us: u64,
    ) -> (update: BlockUpdate)
        requires
            old(self).wf(),
            transactions@.len() == outcomes@.len(),
            old(self).spec_processor().spec_slot() < u64::MAX,
        ensures
            final(self).wf(),
            final(self).spec_processor().spec_slot() == old(self).spec_processor().spec_slot()
                + 1,
            final(self).spec_processor().contents() == commit_outcomes(
                old(self).spec_processor().contents(),
                transactions@.map_values(|t: Transaction| t@),
                outcomes@.map_values(|o: ExecutionOutcome| o@),
            ),
            final(self).pending() == old(self).pending(),
            update.slot == final(self).spec_processor().spec_slot(),
            update.blockhash@ == final(self).spec_processor().spec_blockhash(),
            update.transaction_count == transactions@.len(),
            update.processing_time_us == processing_time_us,
            update.transaction_results@.len() == transactions@.len(),
            forall|j: int|
                0 <= j < update.transaction_results@.len() ==> {
                    &&& (#[trigger] update.transaction_results@[j]).slot == old(
                        self,
                    ).spec_processor().spec_slot()
                    &&& update.transaction_results@[j].signature@ == transactions@[j]@.signature
                    &&& update.transaction_results@[j].success == outcome_accepted(
                        transactions@[j]@,
                        outcomes@[j]@,
                    )
                    &&& update.transaction_results@[j].modified_accounts@.map_values(
                        |p: ([u8; 32], Account)| (p.0@, p.1@),
                    ) == (if update.transaction_results@[j].success {
                        outcomes@[j]@.touched
                    } else {
                        Seq::<(Seq<u8>, AccountV)>::empty()
                    })
                },
            update.modified_accounts@.map_values(|p: ([u8; 32], Account)| (p.0@, p.1@))
                == spec_modified_concat(update.transaction_results@),
    {
        let results = self.processor.process_output(transactions, outcomes);
        self.processor.advance_slot();
        let mut modified_accounts: Vec<([u8; 32], Account)> = Vec::new();
        let n = results.len();
        let mut i: usize = 0;
        proof {
            assert(results@.take(0) =~= Seq::<TransactionResult>::empty());
            assert(modified_accounts@.map_values(|p: ([u8; 32], Account)| (p.0@, p.1@))
                =~= spec_modified_concat(results@.take(0)));
        }
        while i < n
            invariant
                n == results@.len(),
                i <= n,
                modified_accounts@.map_values(|p: ([u8; 32], Account)| (p.0@, p.1@))
                    == spec_modified_concat(results@.take(i as int)),
            decreases n - i,
        {
            let ghost acc0 = modified_accounts@.map_values(
                |p: ([u8; 32], Account)| (p.0@, p.1@),
            );
            if results[i].success {
                let m = results[i].modified_accounts.len();
                let mut k: usize = 0;
                while k < m
                    invariant
                        i < n,
                        n == results@.len(),
                        m == results@[i as int].modified_accounts@.len(),
                        k <= m,
                        acc0 == spec_modified_concat(results@.take(i as int)),
                        modified_accounts@.map_values(|p: ([u8; 32], Account)| (p.0@, p.1@))
                            == acc0 + results@[i as int].modified_accounts@.map_values(
                            |p: ([u8; 32], Account)| (p.0@, p.1@),
                        ).take(k as int),
                    decreases m - k,
                {
                    let key = results[i].modified_accounts[k].0;
                    let account = results[i].modified_accounts[k].1.clone();
                    let ghost av = account@;
                    let ghost pre = modified_accounts@;
                    modified_accounts.push((key, account));
                    proof {
                        let pairs = results@[i as int].modified_accounts@.map_values(
                            |p: ([u8; 32], Account)| (p.0@, p.1@),
                        );
                        let mapped = modified_accounts@.map_values(
                            |p: ([u8; 32], Account)| (p.0@, p.1@),
                        );
                        let pre_mapped = pre.map_values(|p: ([u8; 32], Account)| (p.0@, p.1@));
                        assert(pairs[k as int] == (
                            results@[i as int].modified_accounts@[k as int].0@,
                            results@[i as int].modified_accounts@[k as int].1@,
                        ));
                        assert(av == results@[i as int].modified_accounts@[k as int].1@);
                        assert(pairs.take(k + 1) =~= pairs.take(k as int).push(pairs[k as int]));
                        assert(pre_mapped == acc0 + pairs.take(k as int));
                        assert(pre_mapped.len() == pre.len());
                        assert(pre.len() == acc0.len() + k);
                        assert(mapped.len() == pre.len() + 1);
                        assert forall|j: int| 0 <= j < mapped.len() implies #[trigger] mapped[j]
                            == (acc0 + pairs.take(k + 1))[j] by {
                            assert(mapped[j] == (
                                modified_accounts@[j].0@,
                                modified_accounts@[j].1@,
                            ));
                            if j < pre.len() {
                                assert(modified_accounts@[j] == pre[j]);
                                assert(pre_mapped[j] == (pre[j].0@, pre[j].1@));
                                assert(pre_mapped[j] == (acc0 + pairs.take(k as int))[j]);
                                if j < acc0.len() {
                                    assert((acc0 + pairs.take(k + 1))[j] == acc0[j]);
                                    assert((acc0 + pairs.take(k as int))[j] == acc0[j]);
                                } else {
                                    assert((acc0 + pairs.take(k as int))[j] == pairs.take(
                                        k as int,
                                    )[j - acc0.len()]);
                                    assert((acc0 + pairs.take(k + 1))[j] == pairs.take(k + 1)[j
                                        - acc0.len()]);
                                    assert(pairs.take(k as int)[j - acc0.len()] == pairs[j
                                        - acc0.len()]);
                                    assert(pairs.take(k + 1)[j - acc0.len()] == pairs[j
                                        - acc0.len()]);
                                }
                            } else {
                                assert(j == acc0.len() + k);
                                assert(modified_accounts@[j].0@ == key@);
                                assert(modified_accounts@[j].1@ == av);
                                assert((acc0 + pairs.take(k + 1))[j] == pairs.take(k + 1)[
                                    k as int]);
                                assert(pairs.take(k + 1)[k as int] == pairs[k as int]);
                            }
                        }
                        assert(mapped =~= acc0 + pairs.take(k + 1));
                    }
                    k = k + 1;
                }
                proof {
                    let pairs = results@[i as int].modified_accounts@.map_values(
                        |p: ([u8; 32], Account)| (p.0@, p.1@),
                    );
                    assert(pairs.take(m as int) =~= pairs);
                    assert(results@.take(i + 1).drop_last() =~= results@.take(i as int));
                    assert(results@.take(i + 1).last() == results@[i as int]);
                    assert(modified_accounts@.map_values(|p: ([u8; 32], Account)| (p.0@, p.1@))
                        =~= spec_modified_concat(results@.take(i + 1)));
                }
            } else {
                proof {
                    assert(results@.take(i + 1).drop_last() =~= results@.take(i as int));
                    assert(results@.take(i + 1).last() == results@[i as int]);
                    assert(acc0 + Seq::<(Seq<u8>, AccountV)>::empty() =~= acc0);
                }
            }
            i = i + 1;
        }
        proof {
            assert(results@.take(n as int) =~= results@);
        }
        BlockUpdate {
            slot: self.processor.current_slot(),
            blockhash: self.processor.current_blockhash(),
            transaction_count: transactions.len(),
            modified_accounts,
            transaction_results: results,
            processing_time_us,
        }
    }
}

} // verus!
