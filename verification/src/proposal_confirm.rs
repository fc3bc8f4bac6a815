use vstd::prelude::*;

use crate::bytes::{bytes_eq, clone_bytes};
use crate::error::ErrorCode;
use crate::profit_map::{add_entry, ProfitMap};
use crate::proposal::{slices_view, slice_view, ProposalItem, ProposalSliceItemType, SpecProposalItem};
use crate::proposal_exec::{
    spec_split_profit, spec_verify_existing_item, spec_verify_new_item, reaches_profit, split_new_account_profit,
    verify_existing_item, verify_new_item, ExistingItemFacts, NewItemFacts, ProfitRates,
};
use crate::types::Script;

verus! {

/// One amount owed to one lock.
pub struct Owed {
    pub lock: Vec<u8>,
    pub amount: u64,
}

/// The lock and the amount of each owed amount.
pub open spec fn owed_view(v: Seq<Owed>) -> Seq<(Seq<u8>, u64)> {
    v.map_values(|o: Owed| (o.lock@, o.amount))
}

/// What a list of owed amounts adds up to for one lock.
pub open spec fn owed_to(c: Seq<(Seq<u8>, u64)>, k: Seq<u8>) -> int
    decreases c.len(),
{
    if c.len() == 0 {
        0
    } else {
        owed_to(c.drop_last(), k) + if c.last().0 == k {
            c.last().1 as int
        } else {
            0
        }
    }
}

/// The locks that a list of owed amounts names.
pub open spec fn owed_locks(c: Seq<(Seq<u8>, u64)>) -> Set<Seq<u8>> {
    Set::new(|k: Seq<u8>| exists|i: int| 0 <= i < c.len() && #[trigger] c[i].0 == k)
}

/// What is owed over two lists is what is owed over each.
pub proof fn lemma_owed_to_append(a: Seq<(Seq<u8>, u64)>, b: Seq<(Seq<u8>, u64)>, k: Seq<u8>)
    ensures
        owed_to(a + b, k) == owed_to(a, k) + owed_to(b, k),
    decreases b.len(),
{
    if b.len() == 0 {
        assert(a + b =~= a);
    } else {
        assert((a + b).drop_last() =~= a + b.drop_last());
        lemma_owed_to_append(a, b.drop_last(), k);
    }
}

/// Nothing owed is negative.
pub proof fn lemma_owed_to_nonneg(c: Seq<(Seq<u8>, u64)>, k: Seq<u8>)
    ensures
        owed_to(c, k) >= 0,
    decreases c.len(),
{
    if c.len() > 0 {
        lemma_owed_to_nonneg(c.drop_last(), k);
    }
}

/// Nothing is owed to a lock that a list does not name.
pub proof fn lemma_owed_to_absent(c: Seq<(Seq<u8>, u64)>, k: Seq<u8>)
    requires
        !owed_locks(c).contains(k),
    ensures
        owed_to(c, k) == 0,
    decreases c.len(),
{
    if c.len() > 0 {
        assert(!owed_locks(c.drop_last()).contains(k)) by {
            if owed_locks(c.drop_last()).contains(k) {
                let j = choose|j: int| 0 <= j < c.drop_last().len() && #[trigger] c.drop_last()[j].0 == k;
                assert(c[j].0 == k);
            }
        }
        assert(c.last().0 != k) by {
            if c.last().0 == k {
                assert(c[c.len() - 1].0 == k);
            }
        }
        lemma_owed_to_absent(c.drop_last(), k);
    }
}

/// The entries of a profit map after adding a list of owed amounts in order.
pub open spec fn add_entries(es: Seq<(Seq<u8>, u64)>, c: Seq<(Seq<u8>, u64)>) -> Seq<(Seq<u8>, u64)>
    decreases c.len(),
{
    if c.len() == 0 {
        es
    } else {
        add_entry(add_entries(es, c.drop_last()), c.last().0, c.last().1)
    }
}

/// Adds what a list of owed amounts says to a profit map, in order.
pub fn add_owed(map: &mut ProfitMap, owed: &Vec<Owed>)
    requires
        old(map).wf(),
        forall|k: Seq<u8>|
            (if old(map).spec_map().contains_key(k) {
                old(map).spec_map()[k] as int
            } else {
                0
            }) + owed_to(owed_view(owed@), k) <= u64::MAX,
    ensures
        final(map).wf(),
        final(map).spec_map().dom() == old(map).spec_map().dom() + owed_locks(owed_view(owed@)),
        forall|k: Seq<u8>| #[trigger]
            final(map).spec_map().contains_key(k) ==> final(map).spec_map()[k] == (if old(map).spec_map().contains_key(k) {
                old(map).spec_map()[k] as int
            } else {
                0
            }) + owed_to(owed_view(owed@), k),
        final(map).entries() == add_entries(old(map).entries(), owed_view(owed@)),
{
    let ghost m0 = old(map).spec_map();
    let ghost e0 = old(map).entries();
    let ghost ov = owed_view(owed@);
    let mut i: usize = 0;
    while i < owed.len()
        invariant
            ov == owed_view(owed@),
            m0 == old(map).spec_map(),
            e0 == old(map).entries(),
            map.entries() == add_entries(e0, ov.take(i as int)),
            map.wf(),
            i <= owed@.len(),
            forall|k: Seq<u8>|
                (if m0.contains_key(k) {
                    m0[k] as int
                } else {
                    0
                }) + owed_to(ov, k) <= u64::MAX,
            map.spec_map().dom() == m0.dom() + owed_locks(ov.take(i as int)),
            forall|k: Seq<u8>| #[trigger]
                map.spec_map().contains_key(k) ==> map.spec_map()[k] == (if m0.contains_key(k) {
                    m0[k] as int
                } else {
                    0
                }) + owed_to(ov.take(i as int), k),
        decreases owed@.len() - i,
    {
        let ghost before = map.spec_map();
        let ghost k0 = owed@[i as int].lock@;
        proof {
            let t = ov.take(i as int + 1);
            assert(t.drop_last() =~= ov.take(i as int));
            assert(t.last() == (k0, owed@[i as int].amount));
            assert(ov =~= t + ov.skip(i as int + 1));
            lemma_owed_to_append(t, ov.skip(i as int + 1), k0);
            lemma_owed_to_nonneg(ov.skip(i as int + 1), k0);
            lemma_owed_to_nonneg(ov.take(i as int), k0);
        }
        map.add(owed[i].lock.as_slice(), owed[i].amount);
        proof {
            let t = ov.take(i as int + 1);
            assert(owed_locks(t) =~= owed_locks(ov.take(i as int)).insert(k0)) by {
                assert forall|k: Seq<u8>| owed_locks(t).contains(k) implies owed_locks(ov.take(i as int)).insert(
                    k0,
                ).contains(k) by {
                    let j = choose|j: int| 0 <= j < t.len() && #[trigger] t[j].0 == k;
                    if j < i {
                        assert(ov.take(i as int)[j].0 == k);
                    }
                }
                assert forall|k: Seq<u8>| owed_locks(ov.take(i as int)).insert(k0).contains(k) implies owed_locks(
                    t,
                ).contains(k) by {
                    if k == k0 {
                        assert(t[i as int].0 == k);
                    } else {
                        let j = choose|j: int| 0 <= j < ov.take(i as int).len() && #[trigger] ov.take(i as int)[j].0
                            == k;
                        assert(t[j].0 == k);
                    }
                }
            }
            assert(map.spec_map().dom() =~= m0.dom() + owed_locks(t));
            assert forall|k: Seq<u8>| #[trigger] map.spec_map().contains_key(k) implies map.spec_map()[k] == (if m0.contains_key(k) {
                m0[k] as int
            } else {
                0
            }) + owed_to(t, k) by {
                assert(t.drop_last() =~= ov.take(i as int));
                if k != k0 {
                    assert(before.contains_key(k));
                } else if !before.contains_key(k0) {
                    assert(!m0.contains_key(k0));
                    lemma_owed_to_absent(ov.take(i as int), k0);
                }
            }
        }
        i = i + 1;
    }
    assert(ov.take(owed@.len() as int) =~= ov);
}

/// An item of a proposal together with the ID that the last item of its slice points
/// at, which every AccountCell of the slice kept until the proposal.
pub struct FlatItem {
    pub item: ProposalItem,
    pub original_next: Vec<u8>,
}

/// The value of a flattened item.
pub open spec fn flat_view(v: Seq<FlatItem>) -> Seq<(SpecProposalItem, Seq<u8>)> {
    v.map_values(|f: FlatItem| (f.item@, f.original_next@))
}

/// The items of a slice, each with the ID that the last item points at.
pub open spec fn slice_pairs(sl: Seq<SpecProposalItem>) -> Seq<(SpecProposalItem, Seq<u8>)> {
    sl.map_values(|it: SpecProposalItem| (it, sl.last().next))
}

/// The items of all slices, in order, each with the ID that the last item of its
/// slice points at.
pub open spec fn flat_items(slices: Seq<Seq<SpecProposalItem>>) -> Seq<(SpecProposalItem, Seq<u8>)>
    decreases slices.len(),
{
    if slices.len() == 0 {
        Seq::empty()
    } else {
        flat_items(slices.drop_last()) + slice_pairs(slices.last())
    }
}

fn copy_item(it: &ProposalItem) -> (r: ProposalItem)
    ensures
        r@ == it@,
{
    ProposalItem { account_id: clone_bytes(&it.account_id), item_type: it.item_type, next: clone_bytes(&it.next) }
}

/// Lists the items of all slices in order, each with the ID that the last item of its
/// slice points at. Empty slices make the contract abort, so they are left out.
pub fn flatten_slices(slices: &Vec<Vec<ProposalItem>>) -> (r: Vec<FlatItem>)
    requires
        forall|s: int| 0 <= s < slices@.len() ==> #[trigger] slices@[s]@.len() > 0,
    ensures
        flat_view(r@) == flat_items(slices_view(slices@)),
{
    let ghost sv = slices_view(slices@);
    let mut r: Vec<FlatItem> = Vec::new();
    let mut s: usize = 0;
    assert(sv.take(0) =~= Seq::<Seq<SpecProposalItem>>::empty());
    assert(flat_view(r@) =~= flat_items(sv.take(0)));
    while s < slices.len()
        invariant
            sv == slices_view(slices@),
            forall|t: int| 0 <= t < slices@.len() ==> #[trigger] slices@[t]@.len() > 0,
            s <= slices@.len(),
            flat_view(r@) == flat_items(sv.take(s as int)),
        decreases slices@.len() - s,
    {
        let sl = &slices[s];
        let last_next = &sl[sl.len() - 1].next;
        let ghost base = flat_view(r@);
        let ghost pairs = slice_pairs(sv[s as int]);
        assert(sv[s as int] == slice_view(sl@));
        let mut j: usize = 0;
        assert(pairs.take(0) =~= Seq::<(SpecProposalItem, Seq<u8>)>::empty());
        assert(base + pairs.take(0) =~= base);
        while j < sl.len()
            invariant
                sv == slices_view(slices@),
                s < slices@.len(),
                sl == &slices@[s as int],
                sv[s as int] == slice_view(sl@),
                pairs == slice_pairs(sv[s as int]),
                sl@.len() > 0,
                last_next@ == sl@[sl@.len() - 1].next@,
                j <= sl@.len(),
                flat_view(r@) == base + pairs.take(j as int),
            decreases sl@.len() - j,
        {
            let f = FlatItem { item: copy_item(&sl[j]), original_next: clone_bytes(last_next) };
            let ghost old_r = flat_view(r@);
            r.push(f);
            proof {
                assert(flat_view(r@) =~= old_r.push((sl@[j as int]@, last_next@)));
                assert(pairs.take(j as int + 1) =~= pairs.take(j as int).push(pairs[j as int]));
                assert(pairs[j as int] == (sl@[j as int]@, last_next@));
                assert(flat_view(r@) =~= base + pairs.take(j as int + 1));
            }
            j = j + 1;
        }
        proof {
            assert(pairs.take(sl@.len() as int) =~= pairs);
            assert(sv.take(s as int + 1).drop_last() =~= sv.take(s as int));
            assert(sv.take(s as int + 1).last() == sv[s as int]);
        }
        s = s + 1;
    }
    assert(sv.take(slices@.len() as int) =~= sv);
    r
}

/// What the cells of one item of a confirmed proposal show.
pub enum ItemFacts {
    /// The AccountCell of an item that already existed.
    Existing(ExistingItemFacts),
    /// The PreAccountCell and the new AccountCell of a new item, with the inviter
    /// lock and the channel lock of the PreAccountCell where it has them.
    New(NewItemFacts, Option<Vec<u8>>, Option<Vec<u8>>),
}

/// What a confirmation checks against, and where the profit goes.
pub struct ConfirmContext {
    pub account_type_id: Vec<u8>,
    pub pre_account_type_id: Vec<u8>,
    pub das_lock: Script,
    pub timestamp: u64,
    pub rates: ProfitRates,
    pub proposer_lock: Vec<u8>,
    pub das_wallet_lock: Vec<u8>,
    /// The default lock, which stands for no lock in old PreAccountCells.
    pub default_lock: Vec<u8>,
}

/// What checking one item gives.
pub open spec fn spec_check_item(it: (SpecProposalItem, Seq<u8>), f: ItemFacts, ctx: ConfirmContext) -> Result<
    (),
    ErrorCode,
> {
    match f {
        ItemFacts::Existing(e) => spec_verify_existing_item(
            e,
            ctx.account_type_id@,
            it.1,
            it.0.account_id,
            it.0.next,
        ),
        ItemFacts::New(n, _, _) => match spec_verify_new_item(
            n,
            ctx.account_type_id@,
            ctx.pre_account_type_id@,
            it.0.account_id,
            it.0.next,
            ctx.das_lock@,
            ctx.timestamp,
        ) {
            Err(e) => Err(e),
            Ok(_) => Ok(()),
        },
    }
}

/// Whether a lock of a PreAccountCell names someone: it is there and not the default.
pub open spec fn names_someone(lock: Option<Vec<u8>>, default_lock: Seq<u8>) -> bool {
    match lock {
        Some(l) => l@ != default_lock,
        None => false,
    }
}

/// The profit of a new item beyond the storage of its AccountCell.
pub open spec fn item_profit(n: NewItemFacts) -> u64 {
    (n.total_capacity - n.storage_capacity) as u64
}

/// What an item makes owed: for a new account, the inviter and the channel where they
/// are named, the creator of the proposal and DAS get their shares of its profit; an
/// existing account makes nothing owed. The confirmer's share is not recorded.
pub open spec fn item_owed(f: ItemFacts, ctx: ConfirmContext) -> Seq<(Seq<u8>, u64)> {
    match f {
        ItemFacts::Existing(_) => Seq::empty(),
        ItemFacts::New(n, inviter, channel) => {
            let has_inviter = names_someone(inviter, ctx.default_lock@);
            let has_channel = names_someone(channel, ctx.default_lock@);
            let s = spec_split_profit(item_profit(n), ctx.rates, has_inviter, has_channel);
            (if has_inviter {
                seq![(inviter->Some_0@, s.inviter)]
            } else {
                Seq::empty()
            }) + (if has_channel {
                seq![(channel->Some_0@, s.channel)]
            } else {
                Seq::empty()
            }) + seq![(ctx.proposer_lock@, s.proposal_create), (ctx.das_wallet_lock@, s.das)]
        },
    }
}

/// The first error among the first `n` items, if any.
pub open spec fn first_failure(
    items: Seq<(SpecProposalItem, Seq<u8>)>,
    facts: Seq<ItemFacts>,
    ctx: ConfirmContext,
    n: int,
) -> Option<ErrorCode>
    decreases n,
{
    if n <= 0 {
        None
    } else {
        match first_failure(items, facts, ctx, n - 1) {
            Some(e) => Some(e),
            None => match spec_check_item(items[n - 1], facts[n - 1], ctx) {
                Err(e) => Some(e),
                Ok(_) => None,
            },
        }
    }
}

/// What the first `n` items make owed, in order.
pub open spec fn owed_by_items(facts: Seq<ItemFacts>, ctx: ConfirmContext, n: int) -> Seq<(Seq<u8>, u64)>
    decreases n,
{
    if n <= 0 {
        Seq::empty()
    } else {
        owed_by_items(facts, ctx, n - 1) + item_owed(facts[n - 1], ctx)
    }
}

/// How many items pass before the first error.
pub open spec fn passed_items(
    items: Seq<(SpecProposalItem, Seq<u8>)>,
    facts: Seq<ItemFacts>,
    ctx: ConfirmContext,
    n: int,
) -> int
    decreases n,
{
    if n <= 0 {
        0
    } else if first_failure(items, facts, ctx, n) is None {
        n
    } else {
        passed_items(items, facts, ctx, n - 1)
    }
}

/// Whether the facts of each item match its type.
pub open spec fn facts_match(items: Seq<(SpecProposalItem, Seq<u8>)>, facts: Seq<ItemFacts>) -> bool {
    &&& items.len() == facts.len()
    &&& forall|i: int|
        0 <= i < items.len() ==> ((#[trigger] facts[i] is New) <==> items[i].0.item_type
            == ProposalSliceItemType::New)
}

/// Whether the contract gets through every item that it reaches without aborting: a
/// PreAccountCell that gets as far as its profit holds at least the storage of its
/// AccountCell, and the shares of a new account that passes its checks can be
/// computed and fit in its profit.
#[verifier::opaque]
pub open spec fn no_abort(
    items: Seq<(SpecProposalItem, Seq<u8>)>,
    facts: Seq<ItemFacts>,
    ctx: ConfirmContext,
) -> bool {
    &&& forall|i: int|
        0 <= i < items.len() && first_failure(items, facts, ctx, i) is None ==> match #[trigger] facts[i] {
            ItemFacts::New(n, _, _) => reaches_profit(
                n,
                ctx.account_type_id@,
                ctx.pre_account_type_id@,
                items[i].0.account_id,
            ) ==> n.total_capacity >= n.storage_capacity,
            _ => true,
        }
    &&& forall|i: int|
        0 <= i < items.len() && first_failure(items, facts, ctx, i + 1) is None ==> match #[trigger] facts[i] {
            ItemFacts::New(n, inviter, channel) => {
                let p = item_profit(n);
                &&& p * ctx.rates.inviter <= u64::MAX
                &&& p * ctx.rates.channel <= u64::MAX
                &&& p * ctx.rates.proposal_create <= u64::MAX
                &&& p * ctx.rates.proposal_confirm <= u64::MAX
                &&& crate::proposal_exec::shares_fit(
                    p,
                    ctx.rates,
                    names_someone(inviter, ctx.default_lock@),
                    names_someone(channel, ctx.default_lock@),
                )
            },
            _ => true,
        }
    &&& forall|k: Seq<u8>|
        owed_to(owed_by_items(facts, ctx, passed_items(items, facts, ctx, items.len() as int)), k)
            <= u64::MAX
}

proof fn lemma_first_failure_persists(
    items: Seq<(SpecProposalItem, Seq<u8>)>,
    facts: Seq<ItemFacts>,
    ctx: ConfirmContext,
    n: int,
    m: int,
)
    requires
        0 <= n <= m,
        first_failure(items, facts, ctx, n) is Some,
    ensures
        first_failure(items, facts, ctx, m) == first_failure(items, facts, ctx, n),
    decreases m - n,
{
    if n < m {
        lemma_first_failure_persists(items, facts, ctx, n, m - 1);
    }
}

proof fn lemma_passed_at_least(
    items: Seq<(SpecProposalItem, Seq<u8>)>,
    facts: Seq<ItemFacts>,
    ctx: ConfirmContext,
    n: int,
    m: int,
)
    requires
        0 <= n <= m,
        first_failure(items, facts, ctx, n) is None,
    ensures
        n <= passed_items(items, facts, ctx, m) <= m,
    decreases m,
{
    if m > 0 && first_failure(items, facts, ctx, m) is Some {
        if m == n {
        } else {
            lemma_passed_at_least(items, facts, ctx, n, m - 1);
        }
    }
}

proof fn lemma_owed_by_items_grows(facts: Seq<ItemFacts>, ctx: ConfirmContext, n: int, m: int, k: Seq<u8>)
    requires
        0 <= n <= m,
    ensures
        owed_to(owed_by_items(facts, ctx, n), k) <= owed_to(owed_by_items(facts, ctx, m), k),
    decreases m - n,
{
    if n < m {
        lemma_owed_by_items_grows(facts, ctx, n, m - 1, k);
        lemma_owed_to_append(owed_by_items(facts, ctx, m - 1), item_owed(facts[m - 1], ctx), k);
        lemma_owed_to_nonneg(item_owed(facts[m - 1], ctx), k);
    }
}

fn names_someone_exec(lock: &Option<Vec<u8>>, default_lock: &Vec<u8>) -> (r: bool)
    ensures
        r == names_someone(*lock, default_lock@),
{
    match lock {
        Some(l) => !bytes_eq(l.as_slice(), default_lock.as_slice()),
        None => false,
    }
}

/// Whether checking one item runs without aborting: see `no_abort`.
pub open spec fn item_no_abort(it: (SpecProposalItem, Seq<u8>), f: ItemFacts, ctx: ConfirmContext) -> bool {
    match f {
        ItemFacts::New(n, inviter, channel) => {
            &&& reaches_profit(n, ctx.account_type_id@, ctx.pre_account_type_id@, it.0.account_id)
                ==> n.total_capacity >= n.storage_capacity
            &&& spec_check_item(it, f, ctx) is Ok ==> {
                let p = item_profit(n);
                &&& p * ctx.rates.inviter <= u64::MAX
                &&& p * ctx.rates.channel <= u64::MAX
                &&& p * ctx.rates.proposal_create <= u64::MAX
                &&& p * ctx.rates.proposal_confirm <= u64::MAX
                &&& crate::proposal_exec::shares_fit(
                    p,
                    ctx.rates,
                    names_someone(inviter, ctx.default_lock@),
                    names_someone(channel, ctx.default_lock@),
                )
            }
        },
        _ => true,
    }
}

/// Checks one item of a confirmed proposal and lists what it makes owed.
pub fn check_item(it: &FlatItem, f: &ItemFacts, ctx: &ConfirmContext) -> (r: Result<Vec<Owed>, ErrorCode>)
    requires
        item_no_abort((it.item@, it.original_next@), *f, *ctx),
    ensures
        r is Err <==> spec_check_item((it.item@, it.original_next@), *f, *ctx) is Err,
        r matches Err(e) ==> spec_check_item((it.item@, it.original_next@), *f, *ctx) == Err::<(), ErrorCode>(e),
        r matches Ok(v) ==> owed_view(v@) == item_owed(*f, *ctx),
{
    match f {
        ItemFacts::Existing(e) => {
            let checked = verify_existing_item(
                e,
                ctx.account_type_id.as_slice(),
                it.original_next.as_slice(),
                it.item.account_id.as_slice(),
                it.item.next.as_slice(),
            );
            match checked {
                Err(err) => Err(err),
                Ok(()) => {
                    let v: Vec<Owed> = Vec::new();
                    assert(owed_view(v@) =~= item_owed(*f, *ctx));
                    Ok(v)
                },
            }
        },
        ItemFacts::New(nf, inviter, channel) => {
            let checked = verify_new_item(
                nf,
                ctx.account_type_id.as_slice(),
                ctx.pre_account_type_id.as_slice(),
                it.item.account_id.as_slice(),
                it.item.next.as_slice(),
                &ctx.das_lock,
                ctx.timestamp,
            );
            let profit = match checked {
                Err(err) => {
                    return Err(err);
                },
                Ok(p) => p,
            };
            let has_inviter = names_someone_exec(inviter, &ctx.default_lock);
            let has_channel = names_someone_exec(channel, &ctx.default_lock);
            let shares = split_new_account_profit(profit, &ctx.rates, has_inviter, has_channel);
            let mut owed: Vec<Owed> = Vec::new();
            if has_inviter {
                let l = match inviter {
                    Some(l) => clone_bytes(l),
                    None => Vec::new(),
                };
                owed.push(Owed { lock: l, amount: shares.inviter });
            }
            if has_channel {
                let l = match channel {
                    Some(l) => clone_bytes(l),
                    None => Vec::new(),
                };
                owed.push(Owed { lock: l, amount: shares.channel });
            }
            owed.push(Owed { lock: clone_bytes(&ctx.proposer_lock), amount: shares.proposal_create });
            owed.push(Owed { lock: clone_bytes(&ctx.das_wallet_lock), amount: shares.das });
            assert(owed_view(owed@) =~= item_owed(*f, *ctx));
            Ok(owed)
        },
    }
}

proof fn lemma_owed_locks_append(a: Seq<(Seq<u8>, u64)>, b: Seq<(Seq<u8>, u64)>)
    ensures
        owed_locks(a + b) == owed_locks(a) + owed_locks(b),
{
    let ab = a + b;
    assert forall|k: Seq<u8>| owed_locks(ab).contains(k) implies (owed_locks(a) + owed_locks(b)).contains(k) by {
        let j = choose|j: int| 0 <= j < ab.len() && #[trigger] ab[j].0 == k;
        if j < a.len() {
            assert(a[j].0 == k);
        } else {
            assert(b[j - a.len()].0 == k);
        }
    }
    assert forall|k: Seq<u8>| (owed_locks(a) + owed_locks(b)).contains(k) implies owed_locks(ab).contains(k) by {
        if owed_locks(a).contains(k) {
            let j = choose|j: int| 0 <= j < a.len() && #[trigger] a[j].0 == k;
            assert(ab[j].0 == k);
        } else {
            let j = choose|j: int| 0 <= j < b.len() && #[trigger] b[j].0 == k;
            assert(ab[a.len() + j].0 == k);
        }
    }
    assert(owed_locks(ab) =~= owed_locks(a) + owed_locks(b));
}

proof fn lemma_no_abort_item(
    iv: Seq<(SpecProposalItem, Seq<u8>)>,
    facts: Seq<ItemFacts>,
    ctx: ConfirmContext,
    i: int,
)
    requires
        facts_match(iv, facts),
        no_abort(iv, facts, ctx),
        0 <= i < iv.len(),
        first_failure(iv, facts, ctx, i) is None,
    ensures
        item_no_abort(iv[i], facts[i], ctx),
{
    reveal(no_abort);
    if spec_check_item(iv[i], facts[i], ctx) is Ok {
        assert(first_failure(iv, facts, ctx, i + 1) is None);
    }
}

proof fn lemma_add_fits(
    iv: Seq<(SpecProposalItem, Seq<u8>)>,
    facts: Seq<ItemFacts>,
    ctx: ConfirmContext,
    i: int,
    m: Map<Seq<u8>, u64>,
    owed: Seq<(Seq<u8>, u64)>,
)
    requires
        no_abort(iv, facts, ctx),
        0 <= i < iv.len(),
        first_failure(iv, facts, ctx, i + 1) is None,
        owed == item_owed(facts[i], ctx),
        m.dom() == owed_locks(owed_by_items(facts, ctx, i)),
        forall|k: Seq<u8>| #[trigger] m.contains_key(k) ==> m[k] == owed_to(owed_by_items(facts, ctx, i), k),
    ensures
        forall|k: Seq<u8>|
            (if m.contains_key(k) {
                m[k] as int
            } else {
                0
            }) + owed_to(owed, k) <= u64::MAX,
{
    reveal(no_abort);
    let before = owed_by_items(facts, ctx, i);
    let n = iv.len() as int;
    lemma_passed_at_least(iv, facts, ctx, i + 1, n);
    assert forall|k: Seq<u8>|
        (if m.contains_key(k) {
            m[k] as int
        } else {
            0
        }) + owed_to(owed, k) <= u64::MAX by {
        assert(owed_by_items(facts, ctx, i + 1) == before + owed);
        lemma_owed_to_append(before, owed, k);
        lemma_owed_by_items_grows(facts, ctx, i + 1, passed_items(iv, facts, ctx, n), k);
        if !m.contains_key(k) {
            lemma_owed_to_absent(before, k);
        }
    }
}

/// Checks that a confirmed proposal turned every AccountCell and PreAccountCell into
/// what it proposed, item by item, and gives what the new accounts make owed to each
/// lock. The first item that fails decides the error.
pub fn verify_proposal_execution_result(items: &Vec<FlatItem>, facts: &Vec<ItemFacts>, ctx: &ConfirmContext) -> (r:
    Result<ProfitMap, ErrorCode>)
    requires
        facts_match(flat_view(items@), facts@),
        no_abort(flat_view(items@), facts@, *ctx),
    ensures
        r is Err <==> first_failure(flat_view(items@), facts@, *ctx, items@.len() as int) is Some,
        r matches Err(e) ==> first_failure(flat_view(items@), facts@, *ctx, items@.len() as int) == Some(e),
        r matches Ok(m) ==> m.wf() && m.spec_map().dom() == owed_locks(
            owed_by_items(facts@, *ctx, items@.len() as int),
        ) && (forall|k: Seq<u8>| #[trigger]
            m.spec_map().contains_key(k) ==> m.spec_map()[k] == owed_to(
                owed_by_items(facts@, *ctx, items@.len() as int),
                k,
            )) && m.entries() == add_entries(Seq::empty(), owed_by_items(facts@, *ctx, items@.len() as int)),
{
    let ghost iv = flat_view(items@);
    let ghost n = items@.len() as int;
    let mut map = ProfitMap::new();
    let mut i: usize = 0;
    assert(owed_locks(owed_by_items(facts@, *ctx, 0)) =~= Set::<Seq<u8>>::empty());
    while i < items.len()
        invariant
            iv == flat_view(items@),
            n == items@.len(),
            facts_match(iv, facts@),
            no_abort(iv, facts@, *ctx),
            i <= n,
            first_failure(iv, facts@, *ctx, i as int) is None,
            map.wf(),
            map.entries() == add_entries(Seq::empty(), owed_by_items(facts@, *ctx, i as int)),
            map.spec_map().dom() == owed_locks(owed_by_items(facts@, *ctx, i as int)),
            forall|k: Seq<u8>| #[trigger]
                map.spec_map().contains_key(k) ==> map.spec_map()[k] == owed_to(
                    owed_by_items(facts@, *ctx, i as int),
                    k,
                ),
        decreases n - i,
    {
        proof {
            assert(iv[i as int] == (items@[i as int].item@, items@[i as int].original_next@));
            lemma_no_abort_item(iv, facts@, *ctx, i as int);
        }
        let checked = check_item(&items[i], &facts[i], ctx);
        let owed = match checked {
            Err(err) => {
                proof {
                    lemma_first_failure_persists(iv, facts@, *ctx, i as int + 1, n);
                }
                return Err(err);
            },
            Ok(v) => v,
        };
        let ghost before = owed_by_items(facts@, *ctx, i as int);
        let ghost m_before = map.spec_map();
        proof {
            lemma_add_fits(iv, facts@, *ctx, i as int, m_before, owed_view(owed@));
        }
        add_owed(&mut map, &owed);
        proof {
            let after = owed_by_items(facts@, *ctx, i as int + 1);
            assert(after == before + owed_view(owed@));
            lemma_add_entries_append(Seq::empty(), before, owed_view(owed@));
            lemma_owed_locks_append(before, owed_view(owed@));
            assert forall|k: Seq<u8>| #[trigger] map.spec_map().contains_key(k) implies map.spec_map()[k]
                == owed_to(after, k) by {
                lemma_owed_to_append(before, owed_view(owed@), k);
                if !m_before.contains_key(k) {
                    lemma_owed_to_absent(before, k);
                }
            }
        }
        i = i + 1;
    }
    Ok(map)
}

proof fn lemma_add_entries_append(e: Seq<(Seq<u8>, u64)>, a: Seq<(Seq<u8>, u64)>, b: Seq<(Seq<u8>, u64)>)
    ensures
        add_entries(add_entries(e, a), b) == add_entries(e, a + b),
    decreases b.len(),
{
    if b.len() == 0 {
        assert(a + b =~= a);
    } else {
        lemma_add_entries_append(e, a, b.drop_last());
        assert((a + b).drop_last() =~= a + b.drop_last());
        assert((a + b).last() == b.last());
    }
}

/// The total of the amounts owed in a list.
pub open spec fn owed_total(c: Seq<(Seq<u8>, u64)>) -> int
    decreases c.len(),
{
    if c.len() == 0 {
        0
    } else {
        owed_total(c.drop_last()) + c.last().1
    }
}

/// What an item pays out: the profit of a new account less the confirmer's share.
pub open spec fn item_payout(f: ItemFacts, ctx: ConfirmContext) -> int {
    match f {
        ItemFacts::Existing(_) => 0,
        ItemFacts::New(n, _, _) => item_profit(n) - crate::proposal_exec::share_of(
            item_profit(n),
            ctx.rates.proposal_confirm,
        ),
    }
}

/// What the first `n` items pay out.
pub open spec fn payout_total(facts: Seq<ItemFacts>, ctx: ConfirmContext, n: int) -> int
    decreases n,
{
    if n <= 0 {
        0
    } else {
        payout_total(facts, ctx, n - 1) + item_payout(facts[n - 1], ctx)
    }
}

/// Whether the split of the profit of an item stays within its profit.
pub open spec fn item_split_fits(f: ItemFacts, ctx: ConfirmContext) -> bool {
    match f {
        ItemFacts::Existing(_) => true,
        ItemFacts::New(n, inviter, channel) => {
            let p = item_profit(n);
            &&& p * ctx.rates.inviter <= u64::MAX
            &&& p * ctx.rates.channel <= u64::MAX
            &&& p * ctx.rates.proposal_create <= u64::MAX
            &&& p * ctx.rates.proposal_confirm <= u64::MAX
            &&& crate::proposal_exec::shares_fit(
                p,
                ctx.rates,
                names_someone(inviter, ctx.default_lock@),
                names_someone(channel, ctx.default_lock@),
            )
        },
    }
}

proof fn lemma_owed_total_append(a: Seq<(Seq<u8>, u64)>, b: Seq<(Seq<u8>, u64)>)
    ensures
        owed_total(a + b) == owed_total(a) + owed_total(b),
    decreases b.len(),
{
    if b.len() == 0 {
        assert(a + b =~= a);
    } else {
        lemma_owed_total_append(a, b.drop_last());
        assert((a + b).drop_last() =~= a + b.drop_last());
    }
}

proof fn lemma_item_owed_total(f: ItemFacts, ctx: ConfirmContext)
    requires
        item_split_fits(f, ctx),
    ensures
        owed_total(item_owed(f, ctx)) == item_payout(f, ctx),
{
    match f {
        ItemFacts::Existing(_) => {},
        ItemFacts::New(n, inviter, channel) => {
            let has_inviter = names_someone(inviter, ctx.default_lock@);
            let has_channel = names_someone(channel, ctx.default_lock@);
            let p = item_profit(n);
            let sh = spec_split_profit(p, ctx.rates, has_inviter, has_channel);
            crate::proposal_exec::lemma_profit_shares_sum(p, ctx.rates, has_inviter, has_channel);
            let a: Seq<(Seq<u8>, u64)> = if has_inviter {
                seq![(inviter->Some_0@, sh.inviter)]
            } else {
                Seq::empty()
            };
            let b: Seq<(Seq<u8>, u64)> = if has_channel {
                seq![(channel->Some_0@, sh.channel)]
            } else {
                Seq::empty()
            };
            let c: Seq<(Seq<u8>, u64)> = seq![(ctx.proposer_lock@, sh.proposal_create), (ctx.das_wallet_lock@, sh.das)];
            assert(item_owed(f, ctx) == a + b + c);
            lemma_owed_total_append(a + b, c);
            lemma_owed_total_append(a, b);
            assert(owed_total(a) == (if has_inviter { sh.inviter as int } else { 0 })) by {
                reveal_with_fuel(owed_total, 2);
                if has_inviter {
                    assert(a.drop_last() =~= Seq::<(Seq<u8>, u64)>::empty());
                }
            }
            assert(owed_total(b) == (if has_channel { sh.channel as int } else { 0 })) by {
                reveal_with_fuel(owed_total, 2);
                if has_channel {
                    assert(b.drop_last() =~= Seq::<(Seq<u8>, u64)>::empty());
                }
            }
            assert(owed_total(c) == sh.proposal_create + sh.das) by {
                reveal_with_fuel(owed_total, 3);
                assert(c.drop_last() =~= seq![(ctx.proposer_lock@, sh.proposal_create)]);
                assert(c.drop_last().drop_last() =~= Seq::<(Seq<u8>, u64)>::empty());
            }
        },
    }
}

/// Confirming a proposal neither loses nor makes capacity: what the new accounts of its
/// items make owed adds up to their profits, less the confirmer's shares.
pub proof fn lemma_confirmed_profit_is_conserved(facts: Seq<ItemFacts>, ctx: ConfirmContext, n: int)
    requires
        0 <= n <= facts.len(),
        forall|i: int| 0 <= i < n ==> item_split_fits(#[trigger] facts[i], ctx),
    ensures
        owed_total(owed_by_items(facts, ctx, n)) == payout_total(facts, ctx, n),
    decreases n,
{
    if n > 0 {
        lemma_confirmed_profit_is_conserved(facts, ctx, n - 1);
        lemma_owed_total_append(owed_by_items(facts, ctx, n - 1), item_owed(facts[n - 1], ctx));
        lemma_item_owed_total(facts[n - 1], ctx);
    }
}

} // verus!
