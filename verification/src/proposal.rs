use vstd::prelude::*;

use crate::bytes::{bytes_eq, bytes_le, clone_bytes, contains_bytes, lex_le};
use crate::error::ErrorCode;

verus! {

/// What kind of cell an item of a proposal slice stands for.
#[derive(Debug, Clone, Copy, PartialEq, Eq, Structural)]
pub enum ProposalSliceItemType {
    /// An AccountCell that already exists.
    Exist,
    /// A PreAccountCell that a previous proposal already included.
    Proposed,
    /// A PreAccountCell that becomes a new AccountCell.
    New,
}

/// One item of a proposal slice: an account ID and the ID that follows it.
#[derive(Debug)]
pub struct ProposalItem {
    pub account_id: Vec<u8>,
    pub item_type: ProposalSliceItemType,
    pub next: Vec<u8>,
}

/// The value of a proposal item.
pub struct SpecProposalItem {
    pub account_id: Seq<u8>,
    pub item_type: ProposalSliceItemType,
    pub next: Seq<u8>,
}

impl View for ProposalItem {
    type V = SpecProposalItem;

    open spec fn view(&self) -> SpecProposalItem {
        SpecProposalItem { account_id: self.account_id@, item_type: self.item_type, next: self.next@ }
    }
}

/// The items of one slice.
pub open spec fn slice_view(sl: Seq<ProposalItem>) -> Seq<SpecProposalItem> {
    sl.map_values(|i: ProposalItem| i@)
}

/// The items of every slice.
pub open spec fn slices_view(slices: Seq<Vec<ProposalItem>>) -> Seq<Seq<SpecProposalItem>> {
    slices.map_values(|s: Vec<ProposalItem>| slice_view(s@))
}

/// The limits of ConfigCellProposal that a proposal must respect.
#[derive(Debug, Clone, Copy)]
pub struct ProposalConfig {
    pub proposal_max_account_affect: u32,
    pub proposal_max_pre_account_contain: u32,
}

/// What a scan of the slices has gathered so far.
pub struct SliceScan {
    /// Every account ID of every item, in order.
    pub ids: Seq<Seq<u8>>,
    /// Every account ID, each slice followed by the `next` of its last item.
    pub with_next: Seq<Seq<u8>>,
    /// The `next` of each last item that no first item of type Exist has claimed.
    pub exist_next: Seq<Seq<u8>>,
    /// Number of first items (AccountCells).
    pub accounts: nat,
    /// Number of other items (PreAccountCells).
    pub pres: nat,
}

/// `s` with its first element equal to `x` removed, if it has one.
pub open spec fn remove_first(s: Seq<Seq<u8>>, x: Seq<u8>) -> Seq<Seq<u8>>
    decreases s.len(),
{
    if s.len() == 0 {
        s
    } else if s[0] == x {
        s.drop_first()
    } else {
        seq![s[0]].add(remove_first(s.drop_first(), x))
    }
}

/// One item of a slice read in order: its type against its position, the continuity
/// with the next item, and the uniqueness of its account ID.
pub open spec fn scan_item(sl: Seq<SpecProposalItem>, j: int, st: SliceScan) -> Result<SliceScan, ErrorCode> {
    let item = sl[j];
    if j == 0 && item.item_type == ProposalSliceItemType::New {
        Err(ErrorCode::ProposalCellTypeError)
    } else if j != 0 && item.item_type != ProposalSliceItemType::New {
        Err(ErrorCode::ProposalCellTypeError)
    } else if j + 1 < sl.len() && item.next != sl[j + 1].account_id {
        Err(ErrorCode::ProposalSliceIsDiscontinuity)
    } else if st.ids.contains(item.account_id) {
        Err(ErrorCode::ProposalSliceItemMustBeUniqueAccount)
    } else {
        Ok(SliceScan {
            ids: st.ids.push(item.account_id),
            with_next: st.with_next.push(item.account_id),
            exist_next: if j == 0 && item.item_type == ProposalSliceItemType::Exist {
                remove_first(st.exist_next, item.account_id)
            } else {
                st.exist_next
            },
            accounts: if j == 0 { st.accounts + 1 } else { st.accounts },
            pres: if j == 0 { st.pres } else { st.pres + 1 },
        })
    }
}

/// The first `n` items of a slice read in order.
pub open spec fn scan_items(sl: Seq<SpecProposalItem>, n: int, st: SliceScan) -> Result<SliceScan, ErrorCode>
    decreases n,
{
    if n <= 0 {
        Ok(st)
    } else {
        match scan_items(sl, n - 1, st) {
            Ok(s) => scan_item(sl, n - 1, s),
            Err(e) => Err(e),
        }
    }
}

/// One slice read in order: it needs more than one item, the `next` of its last item
/// waits for a claim, then its items are read.
pub open spec fn scan_slice(sl: Seq<SpecProposalItem>, st: SliceScan) -> Result<SliceScan, ErrorCode> {
    if sl.len() <= 1 {
        Err(ErrorCode::ProposalSliceMustContainMoreThanOneElement)
    } else {
        let last_next = sl[sl.len() - 1].next;
        let st0 = SliceScan { exist_next: st.exist_next.push(last_next), ..st };
        match scan_items(sl, sl.len() as int, st0) {
            Ok(s) => Ok(SliceScan { with_next: s.with_next.push(last_next), ..s }),
            Err(e) => Err(e),
        }
    }
}

/// The scan before any slice.
pub open spec fn empty_scan() -> SliceScan {
    SliceScan { ids: seq![], with_next: seq![], exist_next: seq![], accounts: 0, pres: 0 }
}

/// The first `k` slices read in order.
pub open spec fn scan_slices(slices: Seq<Seq<SpecProposalItem>>, k: int) -> Result<SliceScan, ErrorCode>
    decreases k,
{
    if k <= 0 {
        Ok(empty_scan())
    } else {
        match scan_slices(slices, k - 1) {
            Ok(s) => scan_slice(slices[k - 1], s),
            Err(e) => Err(e),
        }
    }
}

/// Whether `s` is in non-decreasing lexicographic order.
pub open spec fn is_sorted_ids(s: Seq<Seq<u8>>) -> bool {
    forall|i: int| 0 <= i < s.len() - 1 ==> lex_le(#[trigger] s[i], s[i + 1])
}

/// Whether some unclaimed `next` of an existing AccountCell is also an item.
pub open spec fn unclaimed_next_is_item(st: SliceScan) -> bool {
    exists|i: int| 0 <= i < st.exist_next.len() && st.ids.contains(#[trigger] st.exist_next[i])
}

/// The outcome of checking the slices of a proposal: the number of cells it needs,
/// or the first rule that the slices break, in the order in which they are read.
pub open spec fn spec_verify_slices(config: ProposalConfig, slices: Seq<Seq<SpecProposalItem>>) -> Result<nat, ErrorCode> {
    if slices.len() == 0 {
        Err(ErrorCode::ProposalSlicesCanNotBeEmpty)
    } else {
        match scan_slices(slices, slices.len() as int) {
            Err(e) => Err(e),
            Ok(st) => if unclaimed_next_is_item(st) {
                Err(ErrorCode::ProposalSliceItemMustBeUniqueAccount)
            } else if !is_sorted_ids(st.with_next) {
                Err(ErrorCode::ProposalSliceIsNotSorted)
            } else if st.accounts > config.proposal_max_account_affect {
                Err(ErrorCode::InvalidTransactionStructure)
            } else if st.pres > config.proposal_max_pre_account_contain {
                Err(ErrorCode::InvalidTransactionStructure)
            } else {
                Ok(st.ids.len())
            },
        }
    }
}

/// The byte strings of a list of vectors.
pub open spec fn ids_view(v: Seq<Vec<u8>>) -> Seq<Seq<u8>> {
    v.map_values(|x: Vec<u8>| x@)
}

/// Removes the first element of `list` that equals `x`, if there is one.
fn remove_first_bytes(list: &mut Vec<Vec<u8>>, x: &[u8])
    ensures
        ids_view(final(list)@) == remove_first(ids_view(old(list)@), x@),
{
    let ghost orig = ids_view(list@);
    let mut i: usize = 0;
    assert(orig.skip(0) =~= orig);
    assert(orig.subrange(0, 0).add(remove_first(orig, x@)) =~= remove_first(orig, x@));
    while i < list.len()
        invariant
            ids_view(list@) == orig,
            orig == ids_view(old(list)@),
            i <= list@.len(),
            forall|j: int| 0 <= j < i ==> #[trigger] orig[j] != x@,
            remove_first(orig, x@) == orig.subrange(0, i as int).add(remove_first(orig.skip(i as int), x@)),
        decreases list@.len() - i,
    {
        if bytes_eq(list[i].as_slice(), x) {
            proof {
                assert(orig.skip(i as int)[0] == x@);
                assert(remove_first(orig.skip(i as int), x@) == orig.skip(i as int).drop_first());
            }
            list.remove(i);
            assert(ids_view(list@) =~= orig.subrange(0, i as int).add(orig.skip(i as int).drop_first()));
            assert(ids_view(list@) == remove_first(orig, x@));
            return;
        }
        proof {
            let t = orig.skip(i as int);
            assert(t[0] == orig[i as int]);
            assert(t.drop_first() =~= orig.skip(i + 1));
            assert(remove_first(t, x@) == seq![orig[i as int]].add(remove_first(orig.skip(i + 1), x@)));
            assert(orig.subrange(0, i as int).add(seq![orig[i as int]]) =~= orig.subrange(0, i + 1));
            assert(orig.subrange(0, i as int).add(remove_first(t, x@)) =~= orig.subrange(0, i + 1).add(
                remove_first(orig.skip(i + 1), x@),
            ));
        }
        i = i + 1;
    }
    proof {
        assert(orig.skip(i as int).len() == 0);
        assert(orig.subrange(0, i as int) =~= orig);
        assert(orig.add(seq![]) =~= orig);
    }
}

/// The scan state that the executable lists and counters stand for.
pub open spec fn scan_state(
    ids: Seq<Vec<u8>>,
    with_next: Seq<Vec<u8>>,
    exist_next: Seq<Vec<u8>>,
    accounts: nat,
    pres: nat,
) -> SliceScan {
    SliceScan {
        ids: ids_view(ids),
        with_next: ids_view(with_next),
        exist_next: ids_view(exist_next),
        accounts,
        pres,
    }
}

proof fn lemma_scan_items_err_persists(sl: Seq<SpecProposalItem>, j: int, n: int, st: SliceScan)
    requires
        0 <= j <= n,
        scan_items(sl, j, st) is Err,
    ensures
        scan_items(sl, n, st) == scan_items(sl, j, st),
    decreases n - j,
{
    if n > j {
        lemma_scan_items_err_persists(sl, j, n - 1, st);
    }
}

proof fn lemma_scan_slices_err_persists(sv: Seq<Seq<SpecProposalItem>>, k: int, n: int)
    requires
        0 <= k <= n,
        scan_slices(sv, k) is Err,
    ensures
        scan_slices(sv, n) == scan_slices(sv, k),
    decreases n - k,
{
    if n > k {
        lemma_scan_slices_err_persists(sv, k, n - 1);
    }
}

/// The account IDs of the items of a slice, in order.
pub open spec fn slice_ids(sl: Seq<SpecProposalItem>) -> Seq<Seq<u8>> {
    sl.map_values(|i: SpecProposalItem| i.account_id)
}

/// The account IDs of the items of all slices, in order.
pub open spec fn proposal_ids(slices: Seq<Seq<SpecProposalItem>>) -> Seq<Seq<u8>>
    decreases slices.len(),
{
    if slices.len() == 0 {
        Seq::empty()
    } else {
        proposal_ids(slices.drop_last()) + slice_ids(slices.last())
    }
}

proof fn lemma_scan_items_ids(sl: Seq<SpecProposalItem>, n: int, st: SliceScan)
    requires
        0 <= n <= sl.len(),
        scan_items(sl, n, st) is Ok,
        st.ids.no_duplicates(),
    ensures
        scan_items(sl, n, st)->Ok_0.ids == st.ids + slice_ids(sl).take(n),
        scan_items(sl, n, st)->Ok_0.ids.no_duplicates(),
    decreases n,
{
    if n == 0 {
        assert(slice_ids(sl).take(0) =~= Seq::<Seq<u8>>::empty());
        assert(st.ids + Seq::<Seq<u8>>::empty() =~= st.ids);
    } else {
        lemma_scan_items_ids(sl, n - 1, st);
        let prev = scan_items(sl, n - 1, st)->Ok_0;
        let id = sl[n - 1].account_id;
        let next = prev.ids.push(id);
        assert(!prev.ids.contains(id));
        assert(slice_ids(sl).take(n) =~= slice_ids(sl).take(n - 1).push(id));
        assert(next =~= st.ids + slice_ids(sl).take(n));
        assert forall|i: int, j: int| 0 <= i < next.len() && 0 <= j < next.len() && i != j implies next[i]
            != next[j] by {
            if i < prev.ids.len() && j < prev.ids.len() {
            } else if i == prev.ids.len() {
                assert(prev.ids[j] == next[j]);
            } else {
                assert(prev.ids[i] == next[i]);
            }
        }
    }
}

proof fn lemma_scan_slices_ids(slices: Seq<Seq<SpecProposalItem>>, k: int)
    requires
        0 <= k <= slices.len(),
        scan_slices(slices, k) is Ok,
    ensures
        scan_slices(slices, k)->Ok_0.ids == proposal_ids(slices.take(k)),
        scan_slices(slices, k)->Ok_0.ids.no_duplicates(),
    decreases k,
{
    if k == 0 {
        assert(slices.take(0) =~= Seq::<Seq<SpecProposalItem>>::empty());
    } else {
        lemma_scan_slices_ids(slices, k - 1);
        let s = scan_slices(slices, k - 1)->Ok_0;
        let sl = slices[k - 1];
        let st0 = SliceScan { exist_next: s.exist_next.push(sl[sl.len() - 1].next), ..s };
        lemma_scan_items_ids(sl, sl.len() as int, st0);
        assert(slice_ids(sl).take(sl.len() as int) =~= slice_ids(sl));
        assert(slices.take(k).drop_last() =~= slices.take(k - 1));
        assert(slices.take(k).last() == sl);
    }
}

/// An accepted proposal names each account at most once, and the number of cells that
/// it needs is the number of its items.
pub proof fn lemma_accepted_proposal_names_each_account_once(
    config: ProposalConfig,
    slices: Seq<Seq<SpecProposalItem>>,
)
    requires
        spec_verify_slices(config, slices) is Ok,
    ensures
        proposal_ids(slices).no_duplicates(),
        spec_verify_slices(config, slices)->Ok_0 == proposal_ids(slices).len(),
{
    lemma_scan_slices_ids(slices, slices.len() as int);
    assert(slices.take(slices.len() as int) =~= slices);
}

/// Checks the slices of a proposal and returns the number of cells that they need:
/// every slice starts with an AccountCell followed by new accounts, is continuous,
/// no account appears twice, the account IDs with the `next` of each slice are sorted,
/// and the proposal respects the limits of ConfigCellProposal.
pub fn verify_slices(config: ProposalConfig, slices: &Vec<Vec<ProposalItem>>) -> (r: Result<usize, ErrorCode>)
    ensures
        match spec_verify_slices(config, slices_view(slices@)) {
            Ok(n) => r == Ok::<usize, ErrorCode>(n as usize),
            Err(e) => r == Err::<usize, ErrorCode>(e),
        },
{
    let ghost sv = slices_view(slices@);
    if slices.len() == 0 {
        return Err(ErrorCode::ProposalSlicesCanNotBeEmpty);
    }
    let mut ids: Vec<Vec<u8>> = Vec::new();
    let mut with_next: Vec<Vec<u8>> = Vec::new();
    let mut exist_next: Vec<Vec<u8>> = Vec::new();
    let ghost mut accounts: nat = 0;
    let ghost mut pres: nat = 0;
    let mut k: usize = 0;
    assert(ids_view(ids@) =~= seq![]);
    assert(ids_view(with_next@) =~= seq![]);
    assert(ids_view(exist_next@) =~= seq![]);
    while k < slices.len()
        invariant
            sv == slices_view(slices@),
            k <= slices@.len(),
            scan_slices(sv, k as int) == Ok::<SliceScan, ErrorCode>(
                scan_state(ids@, with_next@, exist_next@, accounts, pres),
            ),
            accounts == k,
            accounts + pres == ids@.len(),
        decreases slices@.len() - k,
    {
        let sl = &slices[k];
        let ghost slv = sv[k as int];
        assert(slv == slice_view(sl@));
        let ghost st_before = scan_state(ids@, with_next@, exist_next@, accounts, pres);
        if sl.len() <= 1 {
            proof {
                lemma_scan_slices_err_persists(sv, k + 1, sv.len() as int);
            }
            return Err(ErrorCode::ProposalSliceMustContainMoreThanOneElement);
        }
        let last = sl.len() - 1;
        let last_next = clone_bytes(&sl[last].next);
        exist_next.push(clone_bytes(&last_next));
        assert(ids_view(exist_next@) =~= st_before.exist_next.push(slv[last as int].next));
        let ghost st0 = scan_state(ids@, with_next@, exist_next@, accounts, pres);
        let mut j: usize = 0;
        while j < sl.len()
            invariant
                sv == slices_view(slices@),
                k < slices@.len(),
                slv == sv[k as int],
                slv == slice_view(sl@),
                sl@.len() > 1,
                j <= sl@.len(),
                scan_slices(sv, k as int) == Ok::<SliceScan, ErrorCode>(st_before),
                st0 == (SliceScan { exist_next: st_before.exist_next.push(slv[slv.len() - 1].next), ..st_before }),
                scan_items(slv, j as int, st0) == Ok::<SliceScan, ErrorCode>(
                    scan_state(ids@, with_next@, exist_next@, accounts, pres),
                ),
                accounts == k + (if j > 0 { 1int } else { 0int }),
                accounts + pres == ids@.len(),
            decreases sl@.len() - j,
        {
            let item = &sl[j];
            let ghost cur = scan_state(ids@, with_next@, exist_next@, accounts, pres);
            assert(slv[j as int] == item@);
            if j == 0 {
                if item.item_type == ProposalSliceItemType::New {
                    proof {
                        lemma_scan_items_err_persists(slv, j + 1, slv.len() as int, st0);
                        lemma_scan_slices_err_persists(sv, k + 1, sv.len() as int);
                    }
                    return Err(ErrorCode::ProposalCellTypeError);
                }
            } else {
                if item.item_type != ProposalSliceItemType::New {
                    proof {
                        lemma_scan_items_err_persists(slv, j + 1, slv.len() as int, st0);
                        lemma_scan_slices_err_persists(sv, k + 1, sv.len() as int);
                    }
                    return Err(ErrorCode::ProposalCellTypeError);
                }
            }
            if j + 1 < sl.len() {
                assert(slv[j + 1] == sl@[j + 1]@);
                if !bytes_eq(item.next.as_slice(), sl[j + 1].account_id.as_slice()) {
                    proof {
                        lemma_scan_items_err_persists(slv, j + 1, slv.len() as int, st0);
                        lemma_scan_slices_err_persists(sv, k + 1, sv.len() as int);
                    }
                    return Err(ErrorCode::ProposalSliceIsDiscontinuity);
                }
            }
            if contains_bytes(&ids, item.account_id.as_slice()) {
                proof {
                    let w = choose|i: int| 0 <= i < ids@.len() && #[trigger] ids@[i]@ == item.account_id@;
                    assert(cur.ids[w] == item.account_id@);
                    lemma_scan_items_err_persists(slv, j + 1, slv.len() as int, st0);
                    lemma_scan_slices_err_persists(sv, k + 1, sv.len() as int);
                }
                return Err(ErrorCode::ProposalSliceItemMustBeUniqueAccount);
            }
            proof {
                if cur.ids.contains(item.account_id@) {
                    let w = choose|i: int| 0 <= i < cur.ids.len() && cur.ids[i] == item.account_id@;
                    assert(ids@[w]@ == item.account_id@);
                }
            }
            if j == 0 {
                if item.item_type == ProposalSliceItemType::Exist {
                    remove_first_bytes(&mut exist_next, item.account_id.as_slice());
                }
                proof {
                    accounts = accounts + 1;
                }
            } else {
                proof {
                    pres = pres + 1;
                }
            }
            ids.push(clone_bytes(&item.account_id));
            with_next.push(clone_bytes(&item.account_id));
            assert(ids_view(ids@) =~= cur.ids.push(item.account_id@));
            assert(ids_view(with_next@) =~= cur.with_next.push(item.account_id@));
            j = j + 1;
        }
        let ghost s_items = scan_state(ids@, with_next@, exist_next@, accounts, pres);
        assert(last_next@ == slv[slv.len() - 1].next);
        with_next.push(last_next);
        proof {
            let s = scan_state(ids@, with_next@, exist_next@, accounts, pres);
            assert(ids_view(with_next@) =~= s_items.with_next.push(slv[slv.len() - 1].next));
            assert(s == (SliceScan { with_next: s_items.with_next.push(slv[slv.len() - 1].next), ..s_items }));
            assert(scan_slice(slv, st_before) == Ok::<SliceScan, ErrorCode>(s));
        }
        k = k + 1;
    }
    let ghost st = scan_state(ids@, with_next@, exist_next@, accounts, pres);
    assert(scan_slices(sv, sv.len() as int) == Ok::<SliceScan, ErrorCode>(st));
    let mut i: usize = 0;
    while i < exist_next.len()
        invariant
            sv == slices_view(slices@),
            sv.len() > 0,
            scan_slices(sv, sv.len() as int) == Ok::<SliceScan, ErrorCode>(st),
            st == scan_state(ids@, with_next@, exist_next@, accounts, pres),
            i <= exist_next@.len(),
            forall|m: int| 0 <= m < i ==> !st.ids.contains(#[trigger] st.exist_next[m]),
        decreases exist_next@.len() - i,
    {
        if contains_bytes(&ids, exist_next[i].as_slice()) {
            proof {
                let w = choose|m: int| 0 <= m < ids@.len() && #[trigger] ids@[m]@ == exist_next@[i as int]@;
                assert(st.ids[w] == st.exist_next[i as int]);
            }
            return Err(ErrorCode::ProposalSliceItemMustBeUniqueAccount);
        }
        proof {
            if st.ids.contains(st.exist_next[i as int]) {
                let w = choose|m: int| 0 <= m < st.ids.len() && st.ids[m] == st.exist_next[i as int];
                assert(ids@[w]@ == exist_next@[i as int]@);
            }
        }
        i = i + 1;
    }
    assert(!unclaimed_next_is_item(st));
    let mut m: usize = 0;
    let n = if with_next.len() > 0 { with_next.len() - 1 } else { 0 };
    while m < n
        invariant
            sv == slices_view(slices@),
            sv.len() > 0,
            scan_slices(sv, sv.len() as int) == Ok::<SliceScan, ErrorCode>(st),
            !unclaimed_next_is_item(st),
            st == scan_state(ids@, with_next@, exist_next@, accounts, pres),
            n == (if with_next@.len() > 0 { with_next@.len() - 1 } else { 0 }),
            m <= n,
            forall|t: int| 0 <= t < m ==> lex_le(#[trigger] st.with_next[t], st.with_next[t + 1]),
        decreases n - m,
    {
        if !bytes_le(with_next[m].as_slice(), with_next[m + 1].as_slice()) {
            assert(!lex_le(st.with_next[m as int], st.with_next[m + 1]));
            return Err(ErrorCode::ProposalSliceIsNotSorted);
        }
        m = m + 1;
    }
    assert(is_sorted_ids(st.with_next));
    let account_count = slices.len();
    let pre_count = ids.len() - slices.len();
    if account_count as u64 > config.proposal_max_account_affect as u64 {
        return Err(ErrorCode::InvalidTransactionStructure);
    }
    if pre_count as u64 > config.proposal_max_pre_account_contain as u64 {
        return Err(ErrorCode::InvalidTransactionStructure);
    }
    Ok(ids.len())
}

/// Whether a list of cell indices is in increasing order.
pub open spec fn is_increasing(s: Seq<usize>) -> bool {
    forall|i: int, j: int| 0 <= i < j < s.len() ==> s[i] < s[j]
}

/// Whether a list of cell indices is in non-decreasing order.
pub open spec fn is_non_decreasing(s: Seq<usize>) -> bool {
    forall|i: int, j: int| 0 <= i <= j < s.len() ==> s[i] <= s[j]
}

/// Two lists of cell indices merged as the contract merges them: the smaller head goes
/// first, the head of the second list on a tie, and what is left of one list follows
/// when the other runs out.
pub open spec fn spec_merge(a: Seq<usize>, b: Seq<usize>) -> Seq<usize>
    decreases a.len() + b.len(),
{
    if a.len() == 0 {
        b
    } else if b.len() == 0 {
        a
    } else if a[0] < b[0] {
        seq![a[0]] + spec_merge(a.drop_first(), b)
    } else {
        seq![b[0]] + spec_merge(a, b.drop_first())
    }
}

/// Merges the indices of the AccountCells and of the PreAccountCells that a proposal
/// touches into one list. There must be some PreAccountCell. The indices come from a
/// scan of the cells, so each list is increasing, and then so is the merged one.
pub fn merge_related_cells(account_cells: &Vec<usize>, pre_account_cells: &Vec<usize>) -> (r: Result<
    Vec<usize>,
    ErrorCode,
>)
    ensures
        r is Err <==> pre_account_cells@.len() == 0,
        r is Err ==> r == Err::<Vec<usize>, ErrorCode>(ErrorCode::InvalidTransactionStructure),
        r matches Ok(v) ==> {
            &&& v@ == spec_merge(account_cells@, pre_account_cells@)
            &&& v@.to_multiset() == account_cells@.to_multiset().add(pre_account_cells@.to_multiset())
            &&& is_increasing(account_cells@) && is_increasing(pre_account_cells@) ==> is_non_decreasing(v@)
        },
{
    broadcast use vstd::seq_lib::group_to_multiset_ensures;
    broadcast use vstd::seq_lib::lemma_multiset_commutative;
    broadcast use vstd::multiset::group_multiset_axioms;

    let a = account_cells;
    let b = pre_account_cells;
    if b.len() == 0 {
        return Err(ErrorCode::InvalidTransactionStructure);
    }
    let ghost sorted_inputs = is_increasing(a@) && is_increasing(b@);
    let mut out: Vec<usize> = Vec::new();
    let mut i: usize = 0;
    let mut j: usize = 0;
    assert(a@.subrange(0, 0) =~= Seq::<usize>::empty());
    assert(b@.subrange(0, 0) =~= Seq::<usize>::empty());
    assert(a@.skip(0) =~= a@);
    assert(b@.skip(0) =~= b@);
    assert(out@ + spec_merge(a@.skip(0), b@.skip(0)) =~= spec_merge(a@, b@));
    while i < a.len() || j < b.len()
        invariant
            sorted_inputs == (is_increasing(a@) && is_increasing(b@)),
            i <= a@.len(),
            j <= b@.len(),
            out@ + spec_merge(a@.skip(i as int), b@.skip(j as int)) == spec_merge(a@, b@),
            out@.to_multiset() == a@.subrange(0, i as int).to_multiset().add(
                b@.subrange(0, j as int).to_multiset(),
            ),
            out@.len() == i + j,
            sorted_inputs ==> is_non_decreasing(out@),
            sorted_inputs && out@.len() > 0 && i < a@.len() ==> out@[out@.len() - 1] <= a@[i as int],
            sorted_inputs && out@.len() > 0 && j < b@.len() ==> out@[out@.len() - 1] <= b@[j as int],
        decreases a@.len() + b@.len() - i - j,
    {
        let ghost rest_a = a@.skip(i as int);
        let ghost rest_b = b@.skip(j as int);
        if j == b.len() || (i < a.len() && a[i] < b[j]) {
            proof {
                assert(rest_a.drop_first() =~= a@.skip(i + 1));
                if j == b@.len() {
                    assert(rest_b =~= Seq::<usize>::empty());
                    assert(spec_merge(rest_a, rest_b) == rest_a);
                    assert(spec_merge(a@.skip(i + 1), rest_b) == a@.skip(i + 1));
                }
                assert(spec_merge(rest_a, rest_b) =~= seq![a@[i as int]] + spec_merge(a@.skip(i + 1), rest_b));
            }
            assert(a@.subrange(0, i + 1) =~= a@.subrange(0, i as int).push(a@[i as int]));
            let ghost prev = out@;
            out.push(a[i]);
            proof {
                assert(out@ == prev.push(a@[i as int]));
                assert(out@ + spec_merge(a@.skip(i + 1), rest_b) =~= prev + spec_merge(rest_a, rest_b));
                vstd::seq_lib::to_multiset_build(prev, a@[i as int]);
                vstd::seq_lib::to_multiset_build(a@.subrange(0, i as int), a@[i as int]);
            }
            i = i + 1;
        } else {
            proof {
                assert(rest_b.drop_first() =~= b@.skip(j + 1));
                if i == a@.len() {
                    assert(rest_a =~= Seq::<usize>::empty());
                    assert(spec_merge(rest_a, rest_b) == rest_b);
                    assert(spec_merge(rest_a, b@.skip(j + 1)) == b@.skip(j + 1));
                }
                assert(spec_merge(rest_a, rest_b) =~= seq![b@[j as int]] + spec_merge(rest_a, b@.skip(j + 1)));
            }
            assert(b@.subrange(0, j + 1) =~= b@.subrange(0, j as int).push(b@[j as int]));
            let ghost prev = out@;
            out.push(b[j]);
            proof {
                assert(out@ == prev.push(b@[j as int]));
                assert(out@ + spec_merge(rest_a, b@.skip(j + 1)) =~= prev + spec_merge(rest_a, rest_b));
                vstd::seq_lib::to_multiset_build(prev, b@[j as int]);
                vstd::seq_lib::to_multiset_build(b@.subrange(0, j as int), b@[j as int]);
            }
            j = j + 1;
        }
    }
    assert(a@.subrange(0, i as int) =~= a@);
    assert(b@.subrange(0, j as int) =~= b@);
    assert(a@.skip(i as int) =~= Seq::<usize>::empty());
    assert(b@.skip(j as int) =~= Seq::<usize>::empty());
    assert(out@ + spec_merge(a@.skip(i as int), b@.skip(j as int)) =~= out@);
    Ok(out)
}

} // verus!
