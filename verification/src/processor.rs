//! The transaction processor (component C4's commit side): it holds the
//! slot clock and the account store, takes each transaction's execution
//! outcome from the pluggable instruction processor, verifies that the
//! outcome stayed inside the transaction's declared key set, and commits the
//! accepted writes into the store at the current slot.

use vstd::prelude::*;
use crate::account::{spec_store_all, spec_store_all_slots, Account, AccountStore, AccountV};
use crate::bytes32_eq;
use crate::callback::{add_builtin_account, spec_builtin_account};
use crate::hashing::fresh_blockhash;
use crate::ids::{spec_system_program_id, spec_world_program_id, system_program_id,
    upgradeable_loader_id, spec_upgradeable_loader_id, world_program_id};
use crate::queue::{Transaction, TransactionV};

verus! {

/// How two slots relate on the single linear chain.
#[derive(Debug, Clone, Copy, PartialEq, Eq, Structural)]
pub enum BlockRelation {
    Ancestor,
    Equal,
    Descendant,
    Unknown,
}

/// The fork graph of a linear chain: one branch, ordered by slot.
#[derive(Debug, Clone, Copy)]
pub struct L2ForkGraph {
    pub current_slot: u64,
}

impl L2ForkGraph {
    pub fn new() -> (r: Self)
        ensures
            r.current_slot == 0,
    {
        L2ForkGraph { current_slot: 0 }
    }

    pub fn set_slot(&mut self, slot: u64)
        ensures
            final(self).current_slot == slot,
    {
        self.current_slot = slot;
    }

    /// On a linear chain the earlier slot is always the ancestor.
    pub fn relationship(&self, a: u64, b: u64) -> (r: BlockRelation)
        ensures
            a == b ==> r == BlockRelation::Equal,
            a < b ==> r == BlockRelation::Ancestor,
            a > b ==> r == BlockRelation::Descendant,
    {
        if a == b {
            BlockRelation::Equal
        } else if a < b {
            BlockRelation::Ancestor
        } else {
            BlockRelation::Descendant
        }
    }
}

/// Why a transaction was not committed.
#[derive(Debug, Clone, Copy, PartialEq, Eq, Structural)]
pub enum TxError {
    /// The transaction failed upstream structural checks.
    BadSanitize,
    /// The admission queue refused it.
    QueueFull,
    /// A referenced account could not be loaded.
    MissingAccount,
    /// The instruction processor failed with the given code, or touched a
    /// key outside the transaction's declared set.
    ProcessorError(u32),
    /// The instruction processor aborted.
    InternalAbort,
}

/// What the pluggable instruction processor reports for one transaction: a
/// status, its log lines, and the accounts it touched, in touch order.
#[derive(Debug)]
pub struct ExecutionOutcome {
    pub status: Result<(), u32>,
    pub logs: Vec<String>,
    pub touched: Vec<([u8; 32], Account)>,
}

/// Mathematical value of an [`ExecutionOutcome`].
#[verifier::ext_equal]
pub struct ExecutionOutcomeV {
    pub status: Result<(), u32>,
    pub touched: Seq<(Seq<u8>, AccountV)>,
}

impl View for ExecutionOutcome {
    type V = ExecutionOutcomeV;

    open spec fn view(&self) -> ExecutionOutcomeV {
        ExecutionOutcomeV {
            status: self.status,
            touched: self.touched@.map_values(|p: ([u8; 32], Account)| (p.0@, p.1@)),
        }
    }
}

/// The record kept for one processed transaction.
#[derive(Debug)]
pub struct TransactionResult {
    pub signature: [u8; 64],
    pub slot: u64,
    pub success: bool,
    pub error: Option<TxError>,
    pub logs: Vec<String>,
    pub modified_accounts: Vec<([u8; 32], Account)>,
}

/// Some declared-key view equals `k`.
pub open spec fn declared_contains_v(declared: Seq<Seq<u8>>, k: Seq<u8>) -> bool {
    exists|j: int| 0 <= j < declared.len() && #[trigger] declared[j] == k
}

/// Every touched key is in the declared set.
pub open spec fn touched_within_declared(tx: TransactionV, o: ExecutionOutcomeV) -> bool {
    forall|i: int|
        #![trigger o.touched[i]]
        0 <= i < o.touched.len() ==> declared_contains_v(tx.declared_keys, o.touched[i].0)
}

/// A transaction's outcome is committed exactly when the processor reported
/// success and stayed inside the declared key set.
pub open spec fn outcome_accepted(tx: TransactionV, o: ExecutionOutcomeV) -> bool {
    o.status is Ok && touched_within_declared(tx, o)
}

/// The map after committing one outcome: the touched accounts are stored on
/// acceptance, and nothing changes otherwise.
pub open spec fn commit_outcome(
    m: Map<Seq<u8>, AccountV>,
    tx: TransactionV,
    o: ExecutionOutcomeV,
) -> Map<Seq<u8>, AccountV> {
    if outcome_accepted(tx, o) {
        spec_store_all(m, o.touched)
    } else {
        m
    }
}

/// The per-key slot tags after committing one outcome at `slot`.
pub open spec fn commit_outcome_slots(
    m: Map<Seq<u8>, u64>,
    tx: TransactionV,
    o: ExecutionOutcomeV,
    slot: u64,
) -> Map<Seq<u8>, u64> {
    if outcome_accepted(tx, o) {
        spec_store_all_slots(m, o.touched, slot)
    } else {
        m
    }
}

/// The per-key slot tags after committing a batch of outcomes at `slot`.
pub open spec fn commit_outcomes_slots(
    m: Map<Seq<u8>, u64>,
    txs: Seq<TransactionV>,
    os: Seq<ExecutionOutcomeV>,
    slot: u64,
) -> Map<Seq<u8>, u64>
    decreases os.len(),
{
    if os.len() == 0 || txs.len() != os.len() {
        m
    } else {
        commit_outcome_slots(
            commit_outcomes_slots(m, txs.drop_last(), os.drop_last(), slot),
            txs.last(),
            os.last(),
            slot,
        )
    }
}

/// The map after committing a batch of outcomes, in order.
pub open spec fn commit_outcomes(
    m: Map<Seq<u8>, AccountV>,
    txs: Seq<TransactionV>,
    os: Seq<ExecutionOutcomeV>,
) -> Map<Seq<u8>, AccountV>
    decreases os.len(),
{
    if os.len() == 0 || txs.len() != os.len() {
        m
    } else {
        commit_outcome(commit_outcomes(m, txs.drop_last(), os.drop_last()), txs.last(), os.last())
    }
}

/// The processor: slot clock, blockhash, and the shared account store.
pub struct L2Processor {
    account_store: AccountStore,
    current_slot: u64,
    current_epoch: u64,
    current_blockhash: [u8; 32],
}

impl L2Processor {
    pub closed spec fn contents(&self) -> Map<Seq<u8>, AccountV> {
        self.account_store.contents()
    }

    pub closed spec fn slot_tags(&self) -> Map<Seq<u8>, u64> {
        self.account_store.slots()
    }

    pub closed spec fn spec_slot(&self) -> u64 {
        self.current_slot
    }

    pub closed spec fn spec_epoch(&self) -> u64 {
        self.current_epoch
    }

    pub closed spec fn spec_blockhash(&self) -> Seq<u8> {
        self.current_blockhash@
    }

    pub closed spec fn wf(&self) -> bool {
        self.account_store.wf()
    }

    /// A processor over the given store, at slot zero, with the builtin
    /// programs registered in the store.
    pub fn new(account_store: AccountStore) -> (r: Self)
        requires
            account_store.wf(),
        ensures
            r.wf(),
            r.spec_slot() == 0,
            r.spec_epoch() == 0,
            r.contents() == account_store.contents().insert(
                spec_system_program_id(),
                spec_builtin_account(spec_system_program_id()),
            ).insert(
                spec_upgradeable_loader_id(),
                spec_builtin_account(spec_upgradeable_loader_id()),
            ).insert(spec_world_program_id(), spec_builtin_account(spec_world_program_id())),
    {
        let mut account_store = account_store;
        let sys = system_program_id();
        add_builtin_account(&mut account_store, &sys);
        let loader = upgradeable_loader_id();
        add_builtin_account(&mut account_store, &loader);
        let world = world_program_id();
        add_builtin_account(&mut account_store, &world);
        L2Processor {
            account_store,
            current_slot: 0,
            current_epoch: 0,
            current_blockhash: fresh_blockhash(),
        }
    }

    /// Commit a batch of execution outcomes, one per transaction: an
    /// accepted outcome's touched accounts go into the store at the current
    /// slot, a refused one leaves the store alone, and each transaction gets
    /// its result record.
    pub fn process_output(
        &mut self,
        transactions: &Vec<Transaction>,
        outcomes: Vec<ExecutionOutcome>,
    ) -> (results: Vec<TransactionResult>)
        requires
            old(self).wf(),
            transactions@.len() == outcomes@.len(),
        ensures
            final(self).wf(),
            final(self).spec_slot() == old(self).spec_slot(),
            final(self).spec_blockhash() == old(self).spec_blockhash(),
            final(self).contents() == commit_outcomes(
                old(self).contents(),
                transactions@.map_values(|t: Transaction| t@),
                outcomes@.map_values(|o: ExecutionOutcome| o@),
            ),
            final(self).slot_tags() == commit_outcomes_slots(
                old(self).slot_tags(),
                transactions@.map_values(|t: Transaction| t@),
                outcomes@.map_values(|o: ExecutionOutcome| o@),
                old(self).spec_slot(),
            ),
            results@.len() == transactions@.len(),
            forall|j: int|
                0 <= j < results@.len() ==> {
                    &&& (#[trigger] results@[j]).slot == old(self).spec_slot()
                    &&& results@[j].signature@ == transactions@[j]@.signature
                    &&& results@[j].success == outcome_accepted(
                        transactions@[j]@,
                        outcomes@[j]@,
                    )
                    &&& (results@[j].success <==> results@[j].error is None)
                    &&& results@[j].modified_accounts@.map_values(
                        |p: ([u8; 32], Account)| (p.0@, p.1@),
                    ) == (if results@[j].success {
                        outcomes@[j]@.touched
                    } else {
                        Seq::<(Seq<u8>, AccountV)>::empty()
                    })
                },
    {
        let ghost txs_v = transactions@.map_values(|t: Transaction| t@);
        let ghost os_v = outcomes@.map_values(|o: ExecutionOutcome| o@);
        let n = transactions.len();
        let mut results: Vec<TransactionResult> = Vec::new();
        let mut i: usize = 0;
        let mut outcomes = outcomes;
        let ghost outcomes0 = outcomes@;
        while i < n
            invariant
                self.wf(),
                self.current_slot == old(self).spec_slot(),
                self.current_blockhash@ == old(self).spec_blockhash(),
                n == transactions@.len(),
                outcomes@ == outcomes0,
                n == outcomes@.len(),
                txs_v == transactions@.map_values(|t: Transaction| t@),
                os_v == outcomes@.map_values(|o: ExecutionOutcome| o@),
                i <= n,
                results@.len() == i,
                self.contents() == commit_outcomes(
                    old(self).contents(),
                    txs_v.take(i as int),
                    os_v.take(i as int),
                ),
                self.slot_tags() == commit_outcomes_slots(
                    old(self).slot_tags(),
                    txs_v.take(i as int),
                    os_v.take(i as int),
                    old(self).spec_slot(),
                ),
                forall|j: int|
                    0 <= j < i ==> {
                        &&& (#[trigger] results@[j]).slot == old(self).spec_slot()
                        &&& results@[j].signature@ == transactions@[j]@.signature
                        &&& results@[j].success == outcome_accepted(
                            transactions@[j]@,
                            outcomes@[j]@,
                        )
                        &&& (results@[j].success <==> results@[j].error is None)
                        &&& results@[j].modified_accounts@.map_values(
                            |p: ([u8; 32], Account)| (p.0@, p.1@),
                        ) == (if results@[j].success {
                            outcomes@[j]@.touched
                        } else {
                            Seq::<(Seq<u8>, AccountV)>::empty()
                        })
                    },
            decreases n - i,
        {
            let tx = &transactions[i];
            let outcome = &outcomes[i];
            let accepted: bool = match &outcome.status {
                Ok(()) => touched_in_declared(&outcome.touched, &tx.declared_keys),
                Err(_) => false,
            };
            proof {
                assert(os_v[i as int] == outcomes@[i as int]@);
                assert(txs_v[i as int] == transactions@[i as int]@);
                if outcome.status is Ok {
                    lemma_keys_within_eq(
                        txs_v[i as int],
                        os_v[i as int],
                        outcome.touched@,
                        tx.declared_keys@,
                    );
                }
                assert(accepted == outcome_accepted(txs_v[i as int], os_v[i as int]));
            }
            let ghost r_old = results@;
            if accepted {
                self.account_store.store_accounts(&outcome.touched, self.current_slot);
                let result = TransactionResult {
                    signature: tx.signature,
                    slot: self.current_slot,
                    success: true,
                    error: None,
                    logs: clone_logs(&outcome.logs),
                    modified_accounts: clone_touched(&outcome.touched),
                };
                results.push(result);
            } else {
                let error: TxError = match &outcome.status {
                    Ok(()) => TxError::ProcessorError(0),
                    Err(code) => TxError::ProcessorError(*code),
                };
                let result = TransactionResult {
                    signature: tx.signature,
                    slot: self.current_slot,
                    success: false,
                    error: Some(error),
                    logs: clone_logs(&outcome.logs),
                    modified_accounts: Vec::new(),
                };
                results.push(result);
            }
            proof {
                assert(forall|j: int| 0 <= j < r_old.len() ==> r_old[j] == #[trigger] results@[j]);
                assert(txs_v.take(i + 1).drop_last() =~= txs_v.take(i as int));
                assert(os_v.take(i + 1).drop_last() =~= os_v.take(i as int));
                assert(txs_v.take(i + 1).last() == txs_v[i as int]);
                assert(os_v.take(i + 1).last() == os_v[i as int]);
                assert(txs_v.take(i + 1).len() == os_v.take(i + 1).len());
                assert(self.contents() == commit_outcomes(
                    old(self).contents(),
                    txs_v.take(i + 1),
                    os_v.take(i + 1),
                ));
                assert(self.slot_tags() == commit_outcomes_slots(
                    old(self).slot_tags(),
                    txs_v.take(i + 1),
                    os_v.take(i + 1),
                    old(self).spec_slot(),
                ));
                if accepted {
                    assert((results@[i as int]).modified_accounts@.map_values(
                        |p: ([u8; 32], Account)| (p.0@, p.1@),
                    ) == os_v[i as int].touched);
                } else {
                    assert((results@[i as int]).modified_accounts@.map_values(
                        |p: ([u8; 32], Account)| (p.0@, p.1@),
                    ) =~= Seq::<(Seq<u8>, AccountV)>::empty());
                }
            }
            i = i + 1;
        }
        proof {
            assert(txs_v.take(n as int) =~= txs_v);
            assert(os_v.take(n as int) =~= os_v);
        }
        results
    }

    /// Advance the clock one slot and draw a fresh blockhash.
    pub fn advance_slot(&mut self)
        requires
            old(self).wf(),
            old(self).spec_slot() < u64::MAX,
        ensures
            final(self).wf(),
            final(self).spec_slot() == old(self).spec_slot() + 1,
            final(self).spec_epoch() == old(self).spec_epoch(),
            final(self).contents() == old(self).contents(),
            final(self).slot_tags() == old(self).slot_tags(),
    {
        self.current_slot = self.current_slot + 1;
        self.current_blockhash = fresh_blockhash();
    }

    /// The current slot.
    pub fn current_slot(&self) -> (r: u64)
        ensures
            r == self.spec_slot(),
    {
        self.current_slot
    }

    /// The current blockhash.
    pub fn current_blockhash(&self) -> (r: [u8; 32])
        ensures
            r@ == self.spec_blockhash(),
    {
        self.current_blockhash
    }

    /// The current epoch.
    pub fn current_epoch(&self) -> (r: u64)
        ensures
            r == self.spec_epoch(),
    {
        self.current_epoch
    }

    /// A reference to the account store.
    pub fn account_store(&self) -> (r: &AccountStore)
        ensures
            r.contents() == self.contents(),
            r.slots() == self.slot_tags(),
            r.wf() == self.wf(),
    {
        &self.account_store
    }

    /// Read one account.
    pub fn get_account(&self, pubkey: &[u8; 32]) -> (r: Option<Account>)
        requires
            self.wf(),
        ensures
            match r {
                Some(a) => self.contents().dom().contains(pubkey@) && a@ == self.contents()[
                    pubkey@
                ],
                None => !self.contents().dom().contains(pubkey@),
            },
    {
        self.account_store.get_account(pubkey)
    }

    /// Install a program account: executable, owned by the upgradeable
    /// loader, holding the program bytes, at the current slot.
    pub fn load_program(&mut self, program_id: [u8; 32], program_data: Vec<u8>)
        requires
            old(self).wf(),
        ensures
            final(self).wf(),
            final(self).spec_slot() == old(self).spec_slot(),
            final(self).contents() == old(self).contents().insert(
                program_id@,
                AccountV {
                    lamports: 1,
                    data: program_data@,
                    owner: spec_upgradeable_loader_id(),
                    executable: true,
                    rent_epoch: 0,
                },
            ),
    {
        let ghost dv = program_data@;
        let account = Account {
            lamports: 1,
            data: program_data,
            owner: upgradeable_loader_id(),
            executable: true,
            rent_epoch: 0,
        };
        proof {
            assert(account@ =~= (AccountV {
                lamports: 1,
                data: dv,
                owner: spec_upgradeable_loader_id(),
                executable: true,
                rent_epoch: 0,
            }));
        }
        self.account_store.store_account(program_id, account, self.current_slot);
    }
}

/// Some declared key's bytes equal `k`.
pub open spec fn declared_contains(declared: Seq<[u8; 32]>, k: Seq<u8>) -> bool {
    exists|j: int| 0 <= j < declared.len() && (#[trigger] declared[j])@ == k
}

/// Every touched key is in the declared list, at the concrete level.
pub open spec fn keys_within(touched: Seq<([u8; 32], Account)>, declared: Seq<[u8; 32]>) -> bool {
    forall|i: int|
        #![trigger touched[i]]
        0 <= i < touched.len() ==> declared_contains(declared, touched[i].0@)
}

/// The concrete containment check equals the view-level one the acceptance
/// predicate uses.
proof fn lemma_keys_within_eq(
    tv: TransactionV,
    o: ExecutionOutcomeV,
    touched: Seq<([u8; 32], Account)>,
    declared: Seq<[u8; 32]>,
)
    requires
        o.touched == touched.map_values(|p: ([u8; 32], Account)| (p.0@, p.1@)),
        tv.declared_keys == declared.map_values(|k: [u8; 32]| k@),
    ensures
        touched_within_declared(tv, o) == keys_within(touched, declared),
{
    assert(o.touched.len() == touched.len());
    assert(tv.declared_keys.len() == declared.len());
    if touched_within_declared(tv, o) {
        assert forall|i: int| #![trigger touched[i]] 0 <= i < touched.len() implies
            declared_contains(declared, touched[i].0@) by {
            assert(o.touched[i] == (touched[i].0@, touched[i].1@));
            assert(declared_contains_v(tv.declared_keys, o.touched[i].0));
            let j0 = choose|j: int|
                0 <= j < tv.declared_keys.len() && #[trigger] tv.declared_keys[j] == o.touched[
                i].0;
            assert(tv.declared_keys[j0] == declared[j0]@);
            assert((declared[j0])@ == touched[i].0@);
        }
    }
    if keys_within(touched, declared) {
        assert forall|i: int| #![trigger o.touched[i]] 0 <= i < o.touched.len() implies
            declared_contains_v(tv.declared_keys, o.touched[i].0) by {
            assert(o.touched[i] == (touched[i].0@, touched[i].1@));
            assert(declared_contains(declared, touched[i].0@));
            let j0 = choose|j: int|
                0 <= j < declared.len() && (#[trigger] declared[j])@ == touched[i].0@;
            assert(tv.declared_keys[j0] == declared[j0]@);
        }
    }
}

/// Is every touched key in the declared list?
fn touched_in_declared(touched: &Vec<([u8; 32], Account)>, declared: &Vec<[u8; 32]>) -> (r: bool)
    ensures
        r == keys_within(touched@, declared@),
{
    let n = touched.len();
    let mut i: usize = 0;
    while i < n
        invariant
            n == touched@.len(),
            i <= n,
            forall|w: int|
                #![trigger touched@[w]]
                0 <= w < i ==> declared_contains(declared@, touched@[w].0@),
        decreases n - i,
    {
        let m = declared.len();
        let mut j: usize = 0;
        let mut found = false;
        while j < m
            invariant
                m == declared@.len(),
                j <= m,
                i < n,
                n == touched@.len(),
                found ==> declared_contains(declared@, (touched@[i as int]).0@),
                !found ==> forall|w: int| 0 <= w < j ==> ((#[trigger] declared@[w])@ != (touched@[
                i as int]).0@),
            decreases m - j,
        {
            if bytes32_eq(&touched[i].0, &declared[j]) {
                proof {
                    assert((declared@[j as int])@ == (touched@[i as int]).0@);
                }
                found = true;
            }
            j = j + 1;
        }
        if !found {
            proof {
                assert(!declared_contains(declared@, (touched@[i as int]).0@)) by {
                    if declared_contains(declared@, (touched@[i as int]).0@) {
                        let j0 = choose|w: int|
                            0 <= w < declared@.len() && (#[trigger] declared@[w])@ == (touched@[
                            i as int]).0@;
                        assert(false);
                    }
                }
                assert(!keys_within(touched@, declared@)) by {
                    if keys_within(touched@, declared@) {
                        assert(declared_contains(declared@, (touched@[i as int]).0@));
                    }
                }
            }
            return false;
        }
        i = i + 1;
    }
    proof {
        assert(keys_within(touched@, declared@));
    }
    true
}

fn clone_logs(logs: &Vec<String>) -> (r: Vec<String>)
    ensures
        r@.len() == logs@.len(),
{
    let n = logs.len();
    let mut r: Vec<String> = Vec::new();
    let mut i: usize = 0;
    while i < n
        invariant
            n == logs@.len(),
            i <= n,
            r@.len() == i,
        decreases n - i,
    {
        r.push(logs[i].clone());
        i = i + 1;
    }
    r
}

fn clone_touched(touched: &Vec<([u8; 32], Account)>) -> (r: Vec<([u8; 32], Account)>)
    ensures
        r@.map_values(|p: ([u8; 32], Account)| (p.0@, p.1@)) == touched@.map_values(
            |p: ([u8; 32], Account)| (p.0@, p.1@),
        ),
{
    let n = touched.len();
    let mut r: Vec<([u8; 32], Account)> = Vec::new();
    let mut i: usize = 0;
    while i < n
        invariant
            n == touched@.len(),
            i <= n,
            r@.len() == i,
            forall|j: int|
                0 <= j < i ==> (#[trigger] r@[j]).0@ == touched@[j].0@ && r@[j].1@ == touched@[
                j].1@,
        decreases n - i,
    {
        r.push((touched[i].0, touched[i].1.clone()));
        i = i + 1;
    }
    proof {
        assert(r@.map_values(|p: ([u8; 32], Account)| (p.0@, p.1@)) =~= touched@.map_values(
            |p: ([u8; 32], Account)| (p.0@, p.1@),
        ));
    }
    r
}

} // verus!
