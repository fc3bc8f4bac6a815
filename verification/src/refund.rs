use vstd::prelude::*;

use crate::bytes::{bytes_eq, bytes_le, lemma_lex_antisymmetric, lemma_lex_total, lemma_lex_transitive, lex_le};
use crate::error::{DasError, ErrorCode, PreAccountCellErrorCode};
use crate::profit_map::{add_entry, ProfitMap};
use crate::proposal_confirm::{
    add_entries, add_owed, lemma_owed_to_absent, lemma_owed_to_append, lemma_owed_to_nonneg, owed_locks, owed_to, owed_view, Owed,
};
use crate::types::CELL_BASIC_CAPACITY;

verus! {

/// An output cell: its lock, serialized, and its capacity.
pub struct OutputCell {
    pub lock: Vec<u8>,
    pub capacity: u64,
}

/// The lock and capacity of each output.
pub open spec fn outputs_view(v: Seq<OutputCell>) -> Seq<(Seq<u8>, u64)> {
    v.map_values(|c: OutputCell| (c.lock@, c.capacity))
}

/// The capacities of the outputs locked by `lock`, in order.
pub open spec fn capacities_of(outputs: Seq<(Seq<u8>, u64)>, lock: Seq<u8>) -> Seq<u64>
    decreases outputs.len(),
{
    if outputs.len() == 0 {
        Seq::empty()
    } else if outputs.last().0 == lock {
        capacities_of(outputs.drop_last(), lock).push(outputs.last().1)
    } else {
        capacities_of(outputs.drop_last(), lock)
    }
}

/// The capacities of the outputs locked by `lock`, in order.
pub fn find_capacities_by_lock(outputs: &Vec<OutputCell>, lock: &[u8]) -> (r: Vec<u64>)
    ensures
        r@ == capacities_of(outputs_view(outputs@), lock@),
{
    let ghost ov = outputs_view(outputs@);
    let mut r: Vec<u64> = Vec::new();
    let mut i: usize = 0;
    while i < outputs.len()
        invariant
            ov == outputs_view(outputs@),
            i <= outputs@.len(),
            r@ == capacities_of(ov.take(i as int), lock@),
        decreases outputs@.len() - i,
    {
        proof {
            assert(ov.take(i as int + 1).drop_last() =~= ov.take(i as int));
            assert(ov.take(i as int + 1).last() == (outputs@[i as int].lock@, outputs@[i as int].capacity));
        }
        if bytes_eq(outputs[i].lock.as_slice(), lock) {
            r.push(outputs[i].capacity);
        }
        i = i + 1;
    }
    assert(ov.take(outputs@.len() as int) =~= ov);
    r
}

/// How long a PreAccountCell must wait before it can be refunded, in seconds.
pub const PRE_ACCOUNT_CELL_TIMEOUT: u64 = 86400;

/// A PreAccountCell to refund: whom to refund, its capacity and when it was created.
pub struct PreAccountRefund {
    pub refund_lock: Vec<u8>,
    pub capacity: u64,
    pub created_at: u64,
}

/// What each PreAccountCell makes owed to its refund lock.
pub open spec fn pre_account_owed(cells: Seq<PreAccountRefund>) -> Seq<(Seq<u8>, u64)> {
    cells.map_values(|c: PreAccountRefund| (c.refund_lock@, c.capacity))
}

/// Gathers what a refund of PreAccountCells owes to each refund lock. There must be
/// PreAccountCells in the inputs and none in the outputs, and each must be a day old.
pub fn collect_pre_account_refunds(cells: &Vec<PreAccountRefund>, output_count: usize, timestamp: u64) -> (r: Result<
    ProfitMap,
    DasError,
>)
    requires
        forall|k: Seq<u8>| owed_to(pre_account_owed(cells@), k) <= u64::MAX,
    ensures
        r matches Err(e) ==> e == DasError::Common(ErrorCode::InvalidTransactionStructure) || e
            == DasError::PreAccountCell(PreAccountCellErrorCode::PreAccountCellIsNotTimeout),
        !(cells@.len() > 0 && output_count == 0) ==> (r matches Err(e) && e == DasError::Common(
            ErrorCode::InvalidTransactionStructure,
        )),
        r matches Err(e) ==> (e == DasError::Common(ErrorCode::InvalidTransactionStructure) <==> !(cells@.len() > 0
            && output_count == 0)),
        r is Ok <==> cells@.len() > 0 && output_count == 0 && forall|i: int|
            0 <= i < cells@.len() ==> timestamp >= #[trigger] cells@[i].created_at + PRE_ACCOUNT_CELL_TIMEOUT,
        r matches Ok(m) ==> m.wf() && m.spec_map().dom() == owed_locks(pre_account_owed(cells@)) && (forall|
            k: Seq<u8>,
        | #[trigger]
            m.spec_map().contains_key(k) ==> m.spec_map()[k] == owed_to(pre_account_owed(cells@), k))
            && m.entries() == add_entries(Seq::empty(), pre_account_owed(cells@)),
{
    if !(cells.len() > 0 && output_count == 0) {
        return Err(DasError::Common(ErrorCode::InvalidTransactionStructure));
    }
    let mut i: usize = 0;
    while i < cells.len()
        invariant
            cells@.len() > 0 && output_count == 0,
            i <= cells@.len(),
            forall|j: int| 0 <= j < i ==> timestamp >= #[trigger] cells@[j].created_at + PRE_ACCOUNT_CELL_TIMEOUT,
        decreases cells@.len() - i,
    {
        if (timestamp as u128) < cells[i].created_at as u128 + PRE_ACCOUNT_CELL_TIMEOUT as u128 {
            assert(timestamp < cells@[i as int].created_at + PRE_ACCOUNT_CELL_TIMEOUT);
            return Err(DasError::PreAccountCell(PreAccountCellErrorCode::PreAccountCellIsNotTimeout));
        }
        i = i + 1;
    }
    let mut owed: Vec<Owed> = Vec::new();
    let mut j: usize = 0;
    while j < cells.len()
        invariant
            j <= cells@.len(),
            owed_view(owed@) == pre_account_owed(cells@).take(j as int),
        decreases cells@.len() - j,
    {
        let ghost before = owed_view(owed@);
        owed.push(Owed { lock: crate::bytes::clone_bytes(&cells[j].refund_lock), amount: cells[j].capacity });
        assert(owed_view(owed@) =~= before.push((cells@[j as int].refund_lock@, cells@[j as int].capacity)));
        j = j + 1;
        assert(owed_view(owed@) =~= pre_account_owed(cells@).take(j as int));
    }
    assert(pre_account_owed(cells@).take(cells@.len() as int) =~= pre_account_owed(cells@));
    let mut map = ProfitMap::new();
    proof {
        assert forall|k: Seq<u8>|
            (if map.spec_map().contains_key(k) {
                map.spec_map()[k] as int
            } else {
                0
            }) + owed_to(owed_view(owed@), k) <= u64::MAX by {}
    }
    add_owed(&mut map, &owed);
    assert(map.spec_map().dom() =~= owed_locks(pre_account_owed(cells@)));
    Ok(map)
}

/// The most by which the refund of a lock may fall short, in shannons.
pub const REFUND_TOLERANCE: u64 = 10000;

/// What checking the refund of one lock gives: exactly one output goes to it, and it
/// carries what the lock is owed, less at most 10000 shannons.
pub open spec fn spec_check_refund(expected: u64, capacities: Seq<u64>) -> Result<(), DasError> {
    if capacities.len() != 1 {
        Err(DasError::Common(ErrorCode::InvalidTransactionStructure))
    } else if !(expected <= capacities[0] + REFUND_TOLERANCE) {
        Err(DasError::PreAccountCell(PreAccountCellErrorCode::RefundCapacityError))
    } else {
        Ok(())
    }
}

/// Whether a lock is owed a refund that it does not get.
pub open spec fn refund_fails(owed: Map<Seq<u8>, u64>, outputs: Seq<(Seq<u8>, u64)>, k: Seq<u8>) -> bool {
    owed.contains_key(k) && spec_check_refund(owed[k], capacities_of(outputs, k)) is Err
}

/// The result of checking the refund of each owed lock: the error of the first failing
/// lock in lexicographic order of the serialized locks, or `Ok`.
pub open spec fn spec_verify_refunds(owed: Map<Seq<u8>, u64>, outputs: Seq<(Seq<u8>, u64)>) -> Result<(), DasError> {
    if exists|k: Seq<u8>| #[trigger] refund_fails(owed, outputs, k) {
        let k = choose|k: Seq<u8>|
            #[trigger] refund_fails(owed, outputs, k) && forall|k2: Seq<u8>| #[trigger]
                refund_fails(owed, outputs, k2) ==> lex_le(k, k2);
        spec_check_refund(owed[k], capacities_of(outputs, k))
    } else {
        Ok(())
    }
}

fn check_refund(expected: u64, capacities: &Vec<u64>) -> (r: Result<(), DasError>)
    ensures
        r == spec_check_refund(expected, capacities@),
{
    if capacities.len() != 1 {
        return Err(DasError::Common(ErrorCode::InvalidTransactionStructure));
    }
    if !((expected as u128) <= capacities[0] as u128 + REFUND_TOLERANCE as u128) {
        return Err(DasError::PreAccountCell(PreAccountCellErrorCode::RefundCapacityError));
    }
    Ok(())
}

/// Checks that every lock owed a refund of PreAccountCells gets it. Where several
/// locks fail, the one first in lexicographic order decides the error.
pub fn verify_pre_account_refunds(map: &ProfitMap, outputs: &Vec<OutputCell>) -> (r: Result<(), DasError>)
    requires
        map.wf(),
    ensures
        r == spec_verify_refunds(map.spec_map(), outputs_view(outputs@)),
{
    let ghost owed = map.spec_map();
    let ghost ov = outputs_view(outputs@);
    let ghost es = map.entries();
    proof {
        map.lemma_entries();
    }
    let n = map.len();
    let mut best: Option<(usize, DasError)> = None;
    let mut i: usize = 0;
    while i < n
        invariant
            map.wf(),
            owed == map.spec_map(),
            es == map.entries(),
            ov == outputs_view(outputs@),
            n == es.len(),
            i <= n,
            forall|a: int, b: int| #![trigger es[a], es[b]] 0 <= a < b < es.len() ==> es[a].0 != es[b].0,
            forall|a: int| #![trigger es[a]] 0 <= a < es.len() ==> owed.contains_key(es[a].0) && owed[es[a].0] == es[a].1,
            forall|k: Seq<u8>| #[trigger] owed.contains_key(k) ==> exists|a: int| 0 <= a < es.len() && #[trigger] es[a].0 == k,
            best is None ==> forall|a: int| 0 <= a < i ==> !refund_fails(owed, ov, #[trigger] es[a].0),
            best matches Some(b) ==> b.0 < i && refund_fails(owed, ov, es[b.0 as int].0) && Err::<(), DasError>(b.1)
                == spec_check_refund(owed[es[b.0 as int].0], capacities_of(ov, es[b.0 as int].0)) && forall|a: int|
                0 <= a < i && refund_fails(owed, ov, #[trigger] es[a].0) ==> lex_le(es[b.0 as int].0, es[a].0),
        decreases n - i,
    {
        let key = map.key_at(i);
        let caps = find_capacities_by_lock(outputs, key.as_slice());
        let checked = check_refund(map.amount_at(i), &caps);
        if let Err(e) = checked {
            let better = match &best {
                None => true,
                Some(b) => !bytes_le(map.key_at(b.0).as_slice(), key.as_slice()),
            };
            proof {
                assert(refund_fails(owed, ov, es[i as int].0));
                if let Some(b) = best {
                    if !better {
                        lemma_lex_total(es[b.0 as int].0, es[i as int].0);
                    }
                }
            }
            if better {
                proof {
                    if let Some(b) = best {
                        lemma_lex_total(es[b.0 as int].0, es[i as int].0);
                        assert forall|a: int| 0 <= a <= i && refund_fails(owed, ov, #[trigger] es[a].0) implies lex_le(
                            es[i as int].0,
                            es[a].0,
                        ) by {
                            if a < i {
                                lemma_lex_transitive(es[i as int].0, es[b.0 as int].0, es[a].0);
                            } else {
                                lemma_lex_total(es[a].0, es[a].0);
                            }
                        }
                    } else {
                        assert forall|a: int| 0 <= a <= i && refund_fails(owed, ov, #[trigger] es[a].0) implies lex_le(
                            es[i as int].0,
                            es[a].0,
                        ) by {
                            if a == i {
                                lemma_lex_total(es[a].0, es[a].0);
                            }
                        }
                    }
                }
                best = Some((i, e));
            }
        }
        i = i + 1;
    }
    match best {
        None => {
            proof {
                assert forall|k: Seq<u8>| !#[trigger] refund_fails(owed, ov, k) by {
                    if refund_fails(owed, ov, k) {
                        assert(owed.contains_key(k));
                        let a = choose|a: int| 0 <= a < es.len() && #[trigger] es[a].0 == k;
                        assert(!refund_fails(owed, ov, es[a].0));
                    }
                }
            }
            Ok(())
        },
        Some(b) => {
            proof {
                let kb = es[b.0 as int].0;
                assert forall|k2: Seq<u8>| #[trigger] refund_fails(owed, ov, k2) implies lex_le(kb, k2) by {
                    let a = choose|a: int| 0 <= a < es.len() && #[trigger] es[a].0 == k2;
                    assert(refund_fails(owed, ov, es[a].0));
                }
                let k = choose|k: Seq<u8>| #[trigger] refund_fails(owed, ov, k) && forall|k2: Seq<u8>| #[trigger] refund_fails(owed, ov, k2) ==> lex_le(k, k2);
                assert(refund_fails(owed, ov, kb));
                assert(lex_le(k, kb));
                assert(lex_le(kb, k));
                lemma_lex_antisymmetric(k, kb);
            }
            Err(b.1)
        },
    }
}

/// A WalletCell that is recycled: the account it belongs to and its capacity, total
/// and occupied.
pub struct WalletCellRefund {
    pub id: Vec<u8>,
    pub total_capacity: u64,
    pub occupied_capacity: u64,
}

/// An AccountCell in the inputs: its account ID and its owner lock, serialized.
pub struct AccountOwner {
    pub id: Vec<u8>,
    pub owner_lock: Vec<u8>,
}

/// What each WalletCell makes owed to its account: its capacity beyond what it
/// occupies.
pub open spec fn wallet_owed(wallets: Seq<WalletCellRefund>) -> Seq<(Seq<u8>, u64)> {
    wallets.map_values(|w: WalletCellRefund| (w.id@, (w.total_capacity - w.occupied_capacity) as u64))
}

/// The owner lock of the first AccountCell with the given ID.
pub open spec fn owner_of(accounts: Seq<AccountOwner>, id: Seq<u8>) -> Option<Seq<u8>>
    decreases accounts.len(),
{
    if accounts.len() == 0 {
        None
    } else if accounts[0].id@ == id {
        Some(accounts[0].owner_lock@)
    } else {
        owner_of(accounts.drop_first(), id)
    }
}

/// What checking the refund of one account gives: a refund worth a cell goes to the
/// owner of its AccountCell, which must be in the inputs, in exactly one output that
/// carries exactly the refund.
pub open spec fn spec_check_wallet_refund(
    entry: (Seq<u8>, u64),
    accounts: Seq<AccountOwner>,
    outputs: Seq<(Seq<u8>, u64)>,
) -> Result<(), ErrorCode> {
    if entry.1 < CELL_BASIC_CAPACITY {
        Ok(())
    } else {
        match owner_of(accounts, entry.0) {
            None => Err(ErrorCode::WalletFoundInvalidTransaction),
            Some(lock) => if capacities_of(outputs, lock).len() != 1 {
                Err(ErrorCode::WalletFoundInvalidTransaction)
            } else if capacities_of(outputs, lock)[0] != entry.1 {
                Err(ErrorCode::WalletRefundError)
            } else {
                Ok(())
            },
        }
    }
}

/// The first error among the refunds of the first `n` accounts, in the order in which
/// their WalletCells first appear.
pub open spec fn first_wallet_error(
    es: Seq<(Seq<u8>, u64)>,
    accounts: Seq<AccountOwner>,
    outputs: Seq<(Seq<u8>, u64)>,
    n: int,
) -> Option<ErrorCode>
    decreases n,
{
    if n <= 0 {
        None
    } else {
        match first_wallet_error(es, accounts, outputs, n - 1) {
            Some(e) => Some(e),
            None => match spec_check_wallet_refund(es[n - 1], accounts, outputs) {
                Err(e) => Some(e),
                Ok(_) => None,
            },
        }
    }
}

/// What checking a recycle of WalletCells gives: the wallet maker signs, WalletCells
/// are only consumed, and each account gets the refund of its WalletCells.
pub open spec fn spec_verify_recycle_wallet(
    has_maker_lock: bool,
    input_count: usize,
    output_count: usize,
    wallets: Seq<WalletCellRefund>,
    accounts: Seq<AccountOwner>,
    outputs: Seq<(Seq<u8>, u64)>,
) -> Result<(), ErrorCode> {
    let es = add_entries(Seq::empty(), wallet_owed(wallets));
    if !has_maker_lock {
        Err(ErrorCode::WalletRequireWalletMakerLock)
    } else if !(input_count > 0 && output_count == 0) {
        Err(ErrorCode::WalletFoundInvalidTransaction)
    } else {
        match first_wallet_error(es, accounts, outputs, es.len() as int) {
            Some(e) => Err(e),
            None => Ok(()),
        }
    }
}

fn find_owner(accounts: &Vec<AccountOwner>, id: &[u8]) -> (r: Option<usize>)
    ensures
        match r {
            Some(i) => i < accounts@.len() && owner_of(accounts@, id@) == Some(accounts@[i as int].owner_lock@),
            None => owner_of(accounts@, id@) is None,
        },
{
    let mut i: usize = 0;
    assert(accounts@.skip(0) =~= accounts@);
    while i < accounts.len()
        invariant
            i <= accounts@.len(),
            owner_of(accounts@, id@) == owner_of(accounts@.skip(i as int), id@),
        decreases accounts@.len() - i,
    {
        assert(accounts@.skip(i as int)[0] == accounts@[i as int]);
        assert(accounts@.skip(i as int).drop_first() =~= accounts@.skip(i + 1));
        if bytes_eq(accounts[i].id.as_slice(), id) {
            return Some(i);
        }
        i = i + 1;
    }
    None
}

/// Checks a transaction that recycles WalletCells. A WalletCell that occupies more
/// than it holds, or refunds too large to add up, make the contract abort, so they
/// are left out.
pub fn verify_recycle_wallet(
    has_maker_lock: bool,
    input_count: usize,
    output_count: usize,
    wallets: &Vec<WalletCellRefund>,
    accounts: &Vec<AccountOwner>,
    outputs: &Vec<OutputCell>,
) -> (r: Result<(), ErrorCode>)
    requires
        forall|i: int| 0 <= i < wallets@.len() ==> #[trigger] wallets@[i].occupied_capacity
            <= wallets@[i].total_capacity,
        forall|k: Seq<u8>| owed_to(wallet_owed(wallets@), k) <= u64::MAX,
    ensures
        r == spec_verify_recycle_wallet(
            has_maker_lock,
            input_count,
            output_count,
            wallets@,
            accounts@,
            outputs_view(outputs@),
        ),
{
    if !has_maker_lock {
        return Err(ErrorCode::WalletRequireWalletMakerLock);
    }
    if !(input_count > 0 && output_count == 0) {
        return Err(ErrorCode::WalletFoundInvalidTransaction);
    }
    let mut owed: Vec<Owed> = Vec::new();
    let mut j: usize = 0;
    while j < wallets.len()
        invariant
            j <= wallets@.len(),
            forall|i: int| 0 <= i < wallets@.len() ==> #[trigger] wallets@[i].occupied_capacity
                <= wallets@[i].total_capacity,
            owed_view(owed@) == wallet_owed(wallets@).take(j as int),
        decreases wallets@.len() - j,
    {
        let ghost before = owed_view(owed@);
        let amount = wallets[j].total_capacity - wallets[j].occupied_capacity;
        owed.push(Owed { lock: crate::bytes::clone_bytes(&wallets[j].id), amount });
        assert(owed_view(owed@) =~= before.push((wallets@[j as int].id@, amount)));
        j = j + 1;
        assert(owed_view(owed@) =~= wallet_owed(wallets@).take(j as int));
    }
    assert(wallet_owed(wallets@).take(wallets@.len() as int) =~= wallet_owed(wallets@));
    let mut map = ProfitMap::new();
    add_owed(&mut map, &owed);
    let ghost es = map.entries();
    let ghost ov = outputs_view(outputs@);
    let n = map.len();
    let mut i: usize = 0;
    while i < n
        invariant
            map.wf(),
            es == map.entries(),
            es == add_entries(Seq::empty(), wallet_owed(wallets@)),
            has_maker_lock && input_count > 0 && output_count == 0,
            ov == outputs_view(outputs@),
            n == es.len(),
            i <= n,
            first_wallet_error(es, accounts@, ov, i as int) is None,
        decreases n - i,
    {
        let expected = map.amount_at(i);
        if expected >= CELL_BASIC_CAPACITY {
            let key = map.key_at(i);
            let found = find_owner(accounts, key.as_slice());
            let a = match found {
                None => {
                    proof {
                        lemma_first_wallet_error_persists(es, accounts@, ov, i as int + 1, n as int);
                    }
                    return Err(ErrorCode::WalletFoundInvalidTransaction);
                },
                Some(a) => a,
            };
            let caps = find_capacities_by_lock(outputs, accounts[a].owner_lock.as_slice());
            if caps.len() != 1 {
                proof {
                    lemma_first_wallet_error_persists(es, accounts@, ov, i as int + 1, n as int);
                }
                return Err(ErrorCode::WalletFoundInvalidTransaction);
            }
            if caps[0] != expected {
                proof {
                    lemma_first_wallet_error_persists(es, accounts@, ov, i as int + 1, n as int);
                }
                return Err(ErrorCode::WalletRefundError);
            }
        }
        i = i + 1;
    }
    Ok(())
}

proof fn lemma_first_wallet_error_persists(
    es: Seq<(Seq<u8>, u64)>,
    accounts: Seq<AccountOwner>,
    outputs: Seq<(Seq<u8>, u64)>,
    n: int,
    m: int,
)
    requires
        0 <= n <= m,
        first_wallet_error(es, accounts, outputs, n) is Some,
    ensures
        first_wallet_error(es, accounts, outputs, m) == first_wallet_error(es, accounts, outputs, n),
    decreases m - n,
{
    if n < m {
        lemma_first_wallet_error_persists(es, accounts, outputs, n, m - 1);
    }
}

} // verus!
