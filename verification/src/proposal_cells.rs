use vstd::prelude::*;

use crate::bytes::{bytes_eq, clone_bytes};
use crate::error::ErrorCode;
use crate::proposal::{slice_view, slices_view, ProposalItem, ProposalSliceItemType, SpecProposalItem};
use crate::proposal_confirm::{flat_items, slice_pairs};
use crate::proposal_exec::{opt_view, spec_verify_cell_type, verify_cell_type_id};
use crate::refund::PRE_ACCOUNT_CELL_TIMEOUT;
use crate::types::ACCOUNT_ID_LENGTH;

verus! {

/// The first item of earlier slices that carries an account ID, if any.
pub open spec fn spec_find_item(items: Seq<SpecProposalItem>, account_id: Seq<u8>) -> Option<SpecProposalItem>
    decreases items.len(),
{
    if items.len() == 0 {
        None
    } else if items[0].account_id == account_id {
        Some(items[0])
    } else {
        spec_find_item(items.drop_first(), account_id)
    }
}

/// The items of all slices, in order.
pub open spec fn all_items(slices: Seq<Seq<SpecProposalItem>>) -> Seq<SpecProposalItem> {
    flat_items(slices).map_values(|p: (SpecProposalItem, Seq<u8>)| p.0)
}

proof fn lemma_all_items_push(slices: Seq<Seq<SpecProposalItem>>)
    requires
        slices.len() > 0,
    ensures
        all_items(slices) == all_items(slices.drop_last()) + slices.last(),
{
    let a = all_items(slices.drop_last());
    let b = slices.last();
    assert(flat_items(slices) == flat_items(slices.drop_last()) + slice_pairs(b));
    assert(all_items(slices) =~= a + b);
}

/// Finds the first item of the given slices that carries an account ID.
pub fn find_item_contains_account_id(slices: &Vec<Vec<ProposalItem>>, account_id: &[u8]) -> (r: Option<
    ProposalItem,
>)
    ensures
        match r {
            Some(it) => spec_find_item(all_items(slices_view(slices@)), account_id@) == Some(it@),
            None => spec_find_item(all_items(slices_view(slices@)), account_id@) is None,
        },
{
    let ghost sv = slices_view(slices@);
    let mut s: usize = 0;
    assert(all_items(sv.take(0)) =~= Seq::<SpecProposalItem>::empty());
    while s < slices.len()
        invariant
            sv == slices_view(slices@),
            s <= slices@.len(),
            spec_find_item(all_items(sv.take(s as int)), account_id@) is None,
        decreases slices@.len() - s,
    {
        let sl = &slices[s];
        let ghost base = all_items(sv.take(s as int));
        assert(sv[s as int] == slice_view(sl@));
        let mut j: usize = 0;
        assert(base + slice_view(sl@).take(0) =~= base);
        while j < sl.len()
            invariant
                sv == slices_view(slices@),
                s < slices@.len(),
                sl == &slices@[s as int],
                sv[s as int] == slice_view(sl@),
                base == all_items(sv.take(s as int)),
                spec_find_item(base, account_id@) is None,
                j <= sl@.len(),
                spec_find_item(base + slice_view(sl@).take(j as int), account_id@) is None,
            decreases sl@.len() - j,
        {
            proof {
                lemma_find_item_append(base + slice_view(sl@).take(j as int), seq![sl@[j as int]@], account_id@);
                assert(base + slice_view(sl@).take(j as int + 1) =~= base + slice_view(sl@).take(j as int) + seq![
                    sl@[j as int]@,
                ]);
            }
            if bytes_eq(sl[j].account_id.as_slice(), account_id) {
                let found = ProposalItem {
                    account_id: clone_bytes(&sl[j].account_id),
                    item_type: sl[j].item_type,
                    next: clone_bytes(&sl[j].next),
                };
                proof {
                    let pre = base + slice_view(sl@).take(j as int + 1);
                    lemma_all_items_prefix(sv, s as int, pre, j as int + 1);
                    lemma_find_item_prefix(pre, all_items(sv), account_id@);
                }
                return Some(found);
            }
            proof {
                let one = seq![sl@[j as int]@];
                assert(one.drop_first() =~= Seq::<SpecProposalItem>::empty());
                assert(spec_find_item(Seq::<SpecProposalItem>::empty(), account_id@) is None);
                assert(one[0].account_id != account_id@);
                assert(spec_find_item(one, account_id@) is None);
            }
            j = j + 1;
        }
        proof {
            assert(slice_view(sl@).take(sl@.len() as int) =~= slice_view(sl@));
            assert(sv.take(s as int + 1).drop_last() =~= sv.take(s as int));
            lemma_all_items_push(sv.take(s as int + 1));
        }
        s = s + 1;
    }
    assert(sv.take(slices@.len() as int) =~= sv);
    None
}

proof fn lemma_find_item_append(a: Seq<SpecProposalItem>, b: Seq<SpecProposalItem>, id: Seq<u8>)
    requires
        spec_find_item(a, id) is None,
    ensures
        spec_find_item(a + b, id) == spec_find_item(b, id),
    decreases a.len(),
{
    if a.len() > 0 {
        assert((a + b).drop_first() =~= a.drop_first() + b);
        lemma_find_item_append(a.drop_first(), b, id);
    } else {
        assert(a + b =~= b);
    }
}

proof fn lemma_find_item_prefix(pre: Seq<SpecProposalItem>, whole: Seq<SpecProposalItem>, id: Seq<u8>)
    requires
        pre.len() <= whole.len(),
        whole.take(pre.len() as int) == pre,
        spec_find_item(pre, id) is Some,
    ensures
        spec_find_item(whole, id) == spec_find_item(pre, id),
    decreases pre.len(),
{
    if pre.len() > 0 && pre[0].account_id != id {
        assert(whole[0] == pre[0]);
        assert(whole.drop_first().take(pre.drop_first().len() as int) =~= pre.drop_first());
        lemma_find_item_prefix(pre.drop_first(), whole.drop_first(), id);
    }
}

proof fn lemma_all_items_prefix(sv: Seq<Seq<SpecProposalItem>>, s: int, pre: Seq<SpecProposalItem>, j: int)
    requires
        0 <= s < sv.len(),
        0 <= j <= sv[s].len(),
        pre == all_items(sv.take(s)) + sv[s].take(j),
    ensures
        pre.len() <= all_items(sv).len(),
        all_items(sv).take(pre.len() as int) == pre,
    decreases sv.len() - s,
{
    lemma_all_items_take(sv, s + 1);
    assert(sv.take(s + 1).drop_last() =~= sv.take(s));
    lemma_all_items_push(sv.take(s + 1));
    let whole_s1 = all_items(sv.take(s + 1));
    assert(whole_s1 == all_items(sv.take(s)) + sv[s]);
    assert(whole_s1.take(pre.len() as int) =~= pre);
}

proof fn lemma_all_items_take(sv: Seq<Seq<SpecProposalItem>>, n: int)
    requires
        0 <= n <= sv.len(),
    ensures
        all_items(sv.take(n)).len() <= all_items(sv).len(),
        all_items(sv).take(all_items(sv.take(n)).len() as int) == all_items(sv.take(n)),
    decreases sv.len() - n,
{
    if n < sv.len() {
        lemma_all_items_take(sv, n + 1);
        assert(sv.take(n + 1).drop_last() =~= sv.take(n));
        lemma_all_items_push(sv.take(n + 1));
        let a = all_items(sv.take(n));
        let b = all_items(sv.take(n + 1));
        assert(b.take(a.len() as int) =~= a);
        assert(all_items(sv).take(a.len() as int) =~= b.take(a.len() as int));
    } else {
        assert(sv.take(n) =~= sv);
        assert(all_items(sv).take(all_items(sv).len() as int) =~= all_items(sv));
    }
}

/// What a proposal shows of the cell of one item: the code hash of its type (`None`
/// without one), the account ID in its data, the `next` in its data, and, for a
/// PreAccountCell, when it was created.
pub struct RelevantCell {
    pub cell_type: Option<Vec<u8>>,
    pub id: Vec<u8>,
    pub next: Vec<u8>,
    pub created_at: u64,
}

/// What checking the cell of one item gives: an existing account is an AccountCell
/// and a new one a PreAccountCell no older than the timeout, each with the account ID
/// of the item.
pub open spec fn spec_check_relevant_cell(
    item: SpecProposalItem,
    c: RelevantCell,
    account_type_id: Seq<u8>,
    pre_account_type_id: Seq<u8>,
    timestamp: u64,
) -> Result<(), ErrorCode> {
    let expected = if item.item_type == ProposalSliceItemType::Exist {
        account_type_id
    } else {
        pre_account_type_id
    };
    if spec_verify_cell_type(opt_view(c.cell_type), expected) is Err {
        spec_verify_cell_type(opt_view(c.cell_type), expected)
    } else if c.id@ != item.account_id {
        Err(ErrorCode::ProposalCellAccountIdError)
    } else if item.item_type != ProposalSliceItemType::Exist && !(timestamp <= c.created_at
        + PRE_ACCOUNT_CELL_TIMEOUT) {
        Err(ErrorCode::ProposalConfirmPreAccountCellExpired)
    } else {
        Ok(())
    }
}

/// The `next` that the first item of a slice really has: for the first proposal of a
/// chain, the one in the data of its AccountCell; for an extension, the one that the
/// earlier proposal gave the item, or the one in the data where the earlier proposal
/// does not hold the item. It must be an account ID.
pub open spec fn spec_first_next(
    item: SpecProposalItem,
    c: RelevantCell,
    prev_items: Option<Seq<SpecProposalItem>>,
) -> Result<Seq<u8>, ErrorCode> {
    match prev_items {
        None => if item.item_type != ProposalSliceItemType::Exist {
            Err(ErrorCode::ProposalSliceMustStartWithAccountCell)
        } else if c.next@.len() != ACCOUNT_ID_LENGTH {
            Err(ErrorCode::InvalidCellData)
        } else {
            Ok(c.next@)
        },
        Some(prev) => if item.item_type == ProposalSliceItemType::New {
            Err(ErrorCode::ProposalSliceMustStartWithAccountCell)
        } else {
            match spec_find_item(prev, item.account_id) {
                Some(p) => Ok(p.next),
                None => if c.next@.len() != ACCOUNT_ID_LENGTH {
                    Err(ErrorCode::InvalidCellData)
                } else {
                    Ok(c.next@)
                },
            }
        },
    }
}

/// The first error among the first `n` items of a slice, where the first item also
/// settles the `next` that the slice must pass to its end.
pub open spec fn slice_cells_error(
    sl: Seq<SpecProposalItem>,
    cells: Seq<RelevantCell>,
    account_type_id: Seq<u8>,
    pre_account_type_id: Seq<u8>,
    timestamp: u64,
    prev_items: Option<Seq<SpecProposalItem>>,
    n: int,
) -> Option<ErrorCode>
    decreases n,
{
    if n <= 0 {
        None
    } else {
        match slice_cells_error(sl, cells, account_type_id, pre_account_type_id, timestamp, prev_items, n - 1) {
            Some(e) => Some(e),
            None => match spec_check_relevant_cell(sl[n - 1], cells[n - 1], account_type_id, pre_account_type_id, timestamp) {
                Err(e) => Some(e),
                Ok(_) => if n - 1 == 0 && spec_first_next(sl[0], cells[0], prev_items) is Err {
                    Some(spec_first_next(sl[0], cells[0], prev_items)->Err_0)
                } else {
                    None
                },
            },
        }
    }
}

/// What checking the cells of one slice gives: each cell passes its check, and the
/// `next` of the first item is what the last item passes on.
pub open spec fn spec_verify_slice_cells(
    sl: Seq<SpecProposalItem>,
    cells: Seq<RelevantCell>,
    account_type_id: Seq<u8>,
    pre_account_type_id: Seq<u8>,
    timestamp: u64,
    prev_items: Option<Seq<SpecProposalItem>>,
) -> Result<(), ErrorCode> {
    match slice_cells_error(sl, cells, account_type_id, pre_account_type_id, timestamp, prev_items, sl.len() as int) {
        Some(e) => Err(e),
        None => if spec_first_next(sl[0], cells[0], prev_items)->Ok_0 != sl.last().next {
            Err(ErrorCode::ProposalSliceNotEndCorrectly)
        } else {
            Ok(())
        },
    }
}

proof fn lemma_slice_cells_error_persists(
    sl: Seq<SpecProposalItem>,
    cells: Seq<RelevantCell>,
    a: Seq<u8>,
    p: Seq<u8>,
    t: u64,
    prev: Option<Seq<SpecProposalItem>>,
    n: int,
    m: int,
)
    requires
        0 <= n <= m,
        slice_cells_error(sl, cells, a, p, t, prev, n) is Some,
    ensures
        slice_cells_error(sl, cells, a, p, t, prev, m) == slice_cells_error(sl, cells, a, p, t, prev, n),
    decreases m - n,
{
    if n < m {
        lemma_slice_cells_error_persists(sl, cells, a, p, t, prev, n, m - 1);
    }
}

fn check_relevant_cell(
    item: &ProposalItem,
    c: &RelevantCell,
    account_type_id: &[u8],
    pre_account_type_id: &[u8],
    timestamp: u64,
) -> (r: Result<(), ErrorCode>)
    ensures
        r == spec_check_relevant_cell(item@, *c, account_type_id@, pre_account_type_id@, timestamp),
{
    let is_exist = item.item_type == ProposalSliceItemType::Exist;
    let checked = if is_exist {
        verify_cell_type_id(&c.cell_type, account_type_id)
    } else {
        verify_cell_type_id(&c.cell_type, pre_account_type_id)
    };
    if checked.is_err() {
        return checked;
    }
    if !bytes_eq(c.id.as_slice(), item.account_id.as_slice()) {
        return Err(ErrorCode::ProposalCellAccountIdError);
    }
    if !is_exist && !((timestamp as u128) <= c.created_at as u128 + PRE_ACCOUNT_CELL_TIMEOUT as u128) {
        return Err(ErrorCode::ProposalConfirmPreAccountCellExpired);
    }
    Ok(())
}

fn first_next(item: &ProposalItem, c: &RelevantCell, prev_slices: &Option<Vec<Vec<ProposalItem>>>) -> (r: Result<
    Vec<u8>,
    ErrorCode,
>)
    ensures
        match r {
            Ok(v) => spec_first_next(
                item@,
                *c,
                match prev_slices {
                    Some(p) => Some(all_items(slices_view(p@))),
                    None => None,
                },
            ) == Ok::<Seq<u8>, ErrorCode>(v@),
            Err(e) => spec_first_next(
                item@,
                *c,
                match prev_slices {
                    Some(p) => Some(all_items(slices_view(p@))),
                    None => None,
                },
            ) == Err::<Seq<u8>, ErrorCode>(e),
        },
{
    match prev_slices {
        None => {
            if item.item_type != ProposalSliceItemType::Exist {
                return Err(ErrorCode::ProposalSliceMustStartWithAccountCell);
            }
            if c.next.len() != ACCOUNT_ID_LENGTH {
                return Err(ErrorCode::InvalidCellData);
            }
            Ok(clone_bytes(&c.next))
        },
        Some(prev) => {
            if item.item_type == ProposalSliceItemType::New {
                return Err(ErrorCode::ProposalSliceMustStartWithAccountCell);
            }
            match find_item_contains_account_id(prev, item.account_id.as_slice()) {
                Some(p) => Ok(p.next),
                None => {
                    if c.next.len() != ACCOUNT_ID_LENGTH {
                        return Err(ErrorCode::InvalidCellData);
                    }
                    Ok(clone_bytes(&c.next))
                },
            }
        },
    }
}

/// Checks the cells of one slice of a proposal against its items; the cells of the
/// slice stand in `cells` from `offset` on, one per item. `prev_slices` are the slices
/// of the proposal that this one extends, where it extends one. An empty slice makes
/// the contract abort, so it is left out.
pub fn verify_slice_cells(
    sl: &Vec<ProposalItem>,
    cells: &Vec<RelevantCell>,
    offset: usize,
    account_type_id: &[u8],
    pre_account_type_id: &[u8],
    timestamp: u64,
    prev_slices: &Option<Vec<Vec<ProposalItem>>>,
) -> (r: Result<(), ErrorCode>)
    requires
        sl@.len() > 0,
        offset + sl@.len() <= cells@.len(),
    ensures
        r == spec_verify_slice_cells(
            slice_view(sl@),
            cells@.subrange(offset as int, offset + sl@.len()),
            account_type_id@,
            pre_account_type_id@,
            timestamp,
            match prev_slices {
                Some(p) => Some(all_items(slices_view(p@))),
                None => None,
            },
        ),
{
    let ghost sv = slice_view(sl@);
    let ghost sub = cells@.subrange(offset as int, offset + sl@.len());
    let ghost prev = match prev_slices {
        Some(p) => Some(all_items(slices_view(p@))),
        None => None,
    };
    let cells_len = cells.len();
    let mut next_of_first: Vec<u8> = Vec::new();
    let mut i: usize = 0;
    while i < sl.len()
        invariant
            cells_len == cells@.len(),
            sv == slice_view(sl@),
            sub == cells@.subrange(offset as int, offset + sl@.len()),
            prev == (match prev_slices {
                Some(p) => Some(all_items(slices_view(p@))),
                None => None,
            }),
            sl@.len() > 0,
            offset + sl@.len() <= cells@.len(),
            i <= sl@.len(),
            slice_cells_error(sv, sub, account_type_id@, pre_account_type_id@, timestamp, prev, i as int) is None,
            i > 0 ==> spec_first_next(sv[0], sub[0], prev) == Ok::<Seq<u8>, ErrorCode>(next_of_first@),
        decreases sl@.len() - i,
    {
        assert(offset + i < cells@.len());
        assert(cells@[offset + i] == sub[i as int]);
        let checked = check_relevant_cell(&sl[i], &cells[offset + i], account_type_id, pre_account_type_id, timestamp);
        if let Err(e) = checked {
            proof {
                lemma_slice_cells_error_persists(
                    sv,
                    sub,
                    account_type_id@,
                    pre_account_type_id@,
                    timestamp,
                    prev,
                    i as int + 1,
                    sl@.len() as int,
                );
            }
            return Err(e);
        }
        if i == 0 {
            match first_next(&sl[0], &cells[offset], prev_slices) {
                Err(e) => {
                    proof {
                        lemma_slice_cells_error_persists(
                            sv,
                            sub,
                            account_type_id@,
                            pre_account_type_id@,
                            timestamp,
                            prev,
                            1,
                            sl@.len() as int,
                        );
                    }
                    return Err(e);
                },
                Ok(v) => {
                    next_of_first = v;
                },
            }
        }
        i = i + 1;
    }
    if !bytes_eq(next_of_first.as_slice(), sl[sl.len() - 1].next.as_slice()) {
        return Err(ErrorCode::ProposalSliceNotEndCorrectly);
    }
    Ok(())
}

/// How many items the slices hold in all.
pub open spec fn items_count(slices: Seq<Seq<SpecProposalItem>>) -> int
    decreases slices.len(),
{
    if slices.len() == 0 {
        0
    } else {
        slices[0].len() + items_count(slices.drop_first())
    }
}

/// What checking the cells of all slices gives: the slices in order, each against the
/// cells that follow those of the slices before it; the first failure decides.
pub open spec fn spec_verify_slices_cells(
    slices: Seq<Seq<SpecProposalItem>>,
    cells: Seq<RelevantCell>,
    offset: int,
    account_type_id: Seq<u8>,
    pre_account_type_id: Seq<u8>,
    timestamp: u64,
    prev_items: Option<Seq<SpecProposalItem>>,
) -> Result<(), ErrorCode>
    decreases slices.len(),
{
    if slices.len() == 0 {
        Ok(())
    } else {
        match spec_verify_slice_cells(
            slices[0],
            cells.subrange(offset, offset + slices[0].len()),
            account_type_id,
            pre_account_type_id,
            timestamp,
            prev_items,
        ) {
            Err(e) => Err(e),
            Ok(_) => spec_verify_slices_cells(
                slices.drop_first(),
                cells,
                offset + slices[0].len(),
                account_type_id,
                pre_account_type_id,
                timestamp,
                prev_items,
            ),
        }
    }
}

proof fn lemma_items_count_nonneg(slices: Seq<Seq<SpecProposalItem>>)
    ensures
        items_count(slices) >= 0,
    decreases slices.len(),
{
    if slices.len() > 0 {
        lemma_items_count_nonneg(slices.drop_first());
    }
}

/// Checks the cells that a proposal relies on against its slices: `cells` holds one
/// cell per item, the slices one after another. `prev_slices` are the slices of the
/// proposal that this one extends, where it extends one. Empty slices and too few
/// cells make the contract abort, so they are left out.
pub fn verify_slices_relevant_cells(
    slices: &Vec<Vec<ProposalItem>>,
    cells: &Vec<RelevantCell>,
    account_type_id: &[u8],
    pre_account_type_id: &[u8],
    timestamp: u64,
    prev_slices: &Option<Vec<Vec<ProposalItem>>>,
) -> (r: Result<(), ErrorCode>)
    requires
        forall|s: int| 0 <= s < slices@.len() ==> #[trigger] slices@[s]@.len() > 0,
        items_count(slices_view(slices@)) <= cells@.len(),
    ensures
        r == spec_verify_slices_cells(
            slices_view(slices@),
            cells@,
            0,
            account_type_id@,
            pre_account_type_id@,
            timestamp,
            match prev_slices {
                Some(p) => Some(all_items(slices_view(p@))),
                None => None,
            },
        ),
{
    let ghost sv = slices_view(slices@);
    let ghost prev = match prev_slices {
        Some(p) => Some(all_items(slices_view(p@))),
        None => None,
    };
    assert(sv.skip(0) =~= sv);
    let cells_len = cells.len();
    let mut offset: usize = 0;
    let mut k: usize = 0;
    while k < slices.len()
        invariant
            cells_len == cells@.len(),
            sv == slices_view(slices@),
            prev == (match prev_slices {
                Some(p) => Some(all_items(slices_view(p@))),
                None => None,
            }),
            forall|s: int| 0 <= s < slices@.len() ==> #[trigger] slices@[s]@.len() > 0,
            k <= slices@.len(),
            offset + items_count(sv.skip(k as int)) <= cells@.len(),
            spec_verify_slices_cells(sv, cells@, 0, account_type_id@, pre_account_type_id@, timestamp, prev)
                == spec_verify_slices_cells(
                sv.skip(k as int),
                cells@,
                offset as int,
                account_type_id@,
                pre_account_type_id@,
                timestamp,
                prev,
            ),
        decreases slices@.len() - k,
    {
        let ghost rest = sv.skip(k as int);
        assert(rest[0] == slice_view(slices@[k as int]@));
        assert(rest.drop_first() =~= sv.skip(k + 1));
        proof {
            lemma_items_count_nonneg(rest.drop_first());
        }
        let n = slices[k].len();
        assert(rest[0].len() == n);
        assert(items_count(rest) == n + items_count(rest.drop_first()));
        let checked = verify_slice_cells(
            &slices[k],
            cells,
            offset,
            account_type_id,
            pre_account_type_id,
            timestamp,
            prev_slices,
        );
        if let Err(e) = checked {
            return Err(e);
        }
        offset = offset + n;
        k = k + 1;
    }
    Ok(())
}

} // verus!
