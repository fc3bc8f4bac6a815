use vstd::prelude::*;

use crate::error::{AccountCellErrorCode, DasError};
use crate::types::AccountStatus;
use crate::bytes::{bytes_eq, bytes_le, lemma_lex_antisymmetric, lemma_lex_total, lemma_lex_transitive, lex_le};

verus! {

/// The two kinds of cell that carry an account name.
#[derive(Debug, Clone, Copy, PartialEq, Eq, Structural)]
pub enum CellKind {
    AccountCell,
    DidCell,
}

/// A cell of a transaction that carries an account: its kind, the account name it
/// carries, and its index among the inputs or the outputs.
pub struct NamedCell {
    pub kind: CellKind,
    pub name: Vec<u8>,
    pub index: usize,
}

/// The value of a named cell.
pub struct SpecNamedCell {
    pub kind: CellKind,
    pub name: Seq<u8>,
    pub index: usize,
}

impl View for NamedCell {
    type V = SpecNamedCell;

    open spec fn view(&self) -> SpecNamedCell {
        SpecNamedCell { kind: self.kind, name: self.name@, index: self.index }
    }
}

/// The cells of one account name: the index of its AccountCell and of its DidCell in
/// the inputs and in the outputs, where there is one.
pub struct Entry {
    pub name: Vec<u8>,
    pub input_account_cell: Option<usize>,
    pub output_account_cell: Option<usize>,
    pub input_did_cell: Option<usize>,
    pub output_did_cell: Option<usize>,
}

/// The value of an entry.
pub struct SpecEntry {
    pub name: Seq<u8>,
    pub input_account_cell: Option<usize>,
    pub output_account_cell: Option<usize>,
    pub input_did_cell: Option<usize>,
    pub output_did_cell: Option<usize>,
}

impl View for Entry {
    type V = SpecEntry;

    open spec fn view(&self) -> SpecEntry {
        SpecEntry {
            name: self.name@,
            input_account_cell: self.input_account_cell,
            output_account_cell: self.output_account_cell,
            input_did_cell: self.input_did_cell,
            output_did_cell: self.output_did_cell,
        }
    }
}

/// The entries that a list of entries holds.
pub open spec fn entries_view(es: Seq<Entry>) -> Seq<SpecEntry> {
    es.map_values(|e: Entry| e@)
}

/// The slot of an entry that a cell of this kind on this side fills.
pub open spec fn entry_slot(e: SpecEntry, kind: CellKind, is_output: bool) -> Option<usize> {
    match (kind, is_output) {
        (CellKind::AccountCell, false) => e.input_account_cell,
        (CellKind::AccountCell, true) => e.output_account_cell,
        (CellKind::DidCell, false) => e.input_did_cell,
        (CellKind::DidCell, true) => e.output_did_cell,
    }
}

/// An entry with one slot filled.
pub open spec fn fill_slot(e: SpecEntry, kind: CellKind, is_output: bool, index: usize) -> SpecEntry {
    match (kind, is_output) {
        (CellKind::AccountCell, false) => SpecEntry { input_account_cell: Some(index), ..e },
        (CellKind::AccountCell, true) => SpecEntry { output_account_cell: Some(index), ..e },
        (CellKind::DidCell, false) => SpecEntry { input_did_cell: Some(index), ..e },
        (CellKind::DidCell, true) => SpecEntry { output_did_cell: Some(index), ..e },
    }
}

/// An entry of an account name with no cell yet.
pub open spec fn empty_entry(name: Seq<u8>) -> SpecEntry {
    SpecEntry {
        name,
        input_account_cell: None,
        output_account_cell: None,
        input_did_cell: None,
        output_did_cell: None,
    }
}

/// The position of the first entry whose name is not before `name`.
pub open spec fn first_not_before(es: Seq<SpecEntry>, name: Seq<u8>) -> int
    decreases es.len(),
{
    if es.len() == 0 {
        0
    } else if lex_le(name, es[0].name) {
        0
    } else {
        1 + first_not_before(es.drop_first(), name)
    }
}

/// What adding a cell to the entries gives: the entry of its name gets the cell,
/// and a name not seen yet gets a new entry in name order. `None` where the entry
/// already has a cell in that slot.
pub open spec fn add_cell(es: Seq<SpecEntry>, cell: SpecNamedCell, is_output: bool) -> Option<Seq<SpecEntry>> {
    let p = first_not_before(es, cell.name);
    if p < es.len() && es[p].name == cell.name {
        if entry_slot(es[p], cell.kind, is_output) is Some {
            None
        } else {
            Some(es.update(p, fill_slot(es[p], cell.kind, is_output, cell.index)))
        }
    } else {
        Some(es.insert(p, fill_slot(empty_entry(cell.name), cell.kind, is_output, cell.index)))
    }
}

/// The entries after adding the cells of one side in order. A second cell of one
/// kind with one name on that side ends the walk of that side: it and the cells after
/// it are left out.
pub open spec fn add_side(es: Seq<SpecEntry>, cells: Seq<SpecNamedCell>, is_output: bool) -> Seq<SpecEntry>
    decreases cells.len(),
{
    if cells.len() == 0 {
        es
    } else {
        match add_cell(es, cells[0], is_output) {
            None => es,
            Some(next) => add_side(next, cells.drop_first(), is_output),
        }
    }
}

/// The cells of a transaction grouped by account name: the inputs first, then the
/// outputs.
pub open spec fn spec_group_cells(inputs: Seq<SpecNamedCell>, outputs: Seq<SpecNamedCell>) -> Seq<SpecEntry> {
    add_side(add_side(Seq::empty(), inputs, false), outputs, true)
}

/// Whether the entries are in strictly increasing order of name.
pub open spec fn names_strictly_sorted(es: Seq<SpecEntry>) -> bool {
    forall|i: int, j: int|
        #![trigger es[i], es[j]]
        0 <= i < j < es.len() ==> lex_le(es[i].name, es[j].name) && es[i].name != es[j].name
}

proof fn lemma_first_not_before(es: Seq<SpecEntry>, name: Seq<u8>, p: int)
    requires
        0 <= p <= es.len(),
        forall|j: int| 0 <= j < p ==> !lex_le(name, #[trigger] es[j].name),
        p == es.len() || lex_le(name, es[p].name),
    ensures
        first_not_before(es, name) == p,
    decreases es.len(),
{
    if es.len() > 0 && p > 0 {
        assert(!lex_le(name, es[0].name));
        assert forall|j: int| 0 <= j < p - 1 implies !lex_le(name, #[trigger] es.drop_first()[j].name) by {
            assert(es.drop_first()[j] == es[j + 1]);
        }
        lemma_first_not_before(es.drop_first(), name, p - 1);
    }
}

proof fn lemma_first_not_before_bounds(es: Seq<SpecEntry>, name: Seq<u8>)
    ensures
        0 <= first_not_before(es, name) <= es.len(),
        forall|j: int| 0 <= j < first_not_before(es, name) ==> !lex_le(name, #[trigger] es[j].name),
        first_not_before(es, name) < es.len() ==> lex_le(name, es[first_not_before(es, name)].name),
    decreases es.len(),
{
    if es.len() > 0 && !lex_le(name, es[0].name) {
        lemma_first_not_before_bounds(es.drop_first(), name);
        assert forall|j: int| 0 <= j < first_not_before(es, name) implies !lex_le(name, #[trigger] es[j].name) by {
            if j > 0 {
                assert(es.drop_first()[j - 1] == es[j]);
            }
        }
    }
}

proof fn lemma_add_cell_sorted(es: Seq<SpecEntry>, cell: SpecNamedCell, is_output: bool)
    requires
        names_strictly_sorted(es),
        add_cell(es, cell, is_output) is Some,
    ensures
        names_strictly_sorted(add_cell(es, cell, is_output).unwrap()),
{
    let p = first_not_before(es, cell.name);
    lemma_first_not_before_bounds(es, cell.name);
    if p < es.len() && es[p].name == cell.name {
        let f = fill_slot(es[p], cell.kind, is_output, cell.index);
        assert(f.name == es[p].name);
        let next = es.update(p, f);
        assert forall|i: int, j: int| 0 <= i < j < next.len() implies lex_le(next[i].name, next[j].name)
            && next[i].name != next[j].name by {
            assert(next[i].name == es[i].name);
            assert(next[j].name == es[j].name);
            assert(lex_le(es[i].name, es[j].name) && es[i].name != es[j].name);
        }
    } else {
        let e = fill_slot(empty_entry(cell.name), cell.kind, is_output, cell.index);
        assert(e.name == cell.name);
        let next = es.insert(p, e);
        assert forall|j: int| 0 <= j < p implies lex_le(es[j].name, cell.name) && es[j].name != cell.name by {
            lemma_lex_total(cell.name, es[j].name);
        }
        assert forall|j: int| p <= j < es.len() implies lex_le(cell.name, es[j].name) && es[j].name
            != cell.name by {
            if j > p {
                lemma_lex_transitive(cell.name, es[p].name, es[j].name);
                if es[j].name == cell.name {
                    lemma_lex_antisymmetric(es[p].name, es[j].name);
                }
            }
        }
        assert forall|i: int, j: int| 0 <= i < j < next.len() implies lex_le(next[i].name, next[j].name)
            && next[i].name != next[j].name by {
            if i < p && j < p {
                assert(next[i] == es[i] && next[j] == es[j]);
                assert(lex_le(es[i].name, es[j].name) && es[i].name != es[j].name);
            } else if i < p && j == p {
                assert(next[i] == es[i] && next[j] == e);
            } else if i < p {
                assert(next[i] == es[i] && next[j] == es[j - 1]);
                assert(lex_le(es[i].name, es[j - 1].name) && es[i].name != es[j - 1].name);
            } else if i == p {
                assert(next[i] == e && next[j] == es[j - 1]);
            } else {
                assert(next[i] == es[i - 1] && next[j] == es[j - 1]);
                assert(lex_le(es[i - 1].name, es[j - 1].name) && es[i - 1].name != es[j - 1].name);
            }
        }
    }
}

proof fn lemma_add_side_sorted(es: Seq<SpecEntry>, cells: Seq<SpecNamedCell>, is_output: bool)
    requires
        names_strictly_sorted(es),
    ensures
        names_strictly_sorted(add_side(es, cells, is_output)),
    decreases cells.len(),
{
    if cells.len() > 0 {
        if let Some(next) = add_cell(es, cells[0], is_output) {
            lemma_add_cell_sorted(es, cells[0], is_output);
            lemma_add_side_sorted(next, cells.drop_first(), is_output);
        }
    }
}

/// Grouping the cells of a transaction by account name yields each name once, in
/// increasing order of name.
pub proof fn lemma_group_cells_sorted(inputs: Seq<SpecNamedCell>, outputs: Seq<SpecNamedCell>)
    ensures
        names_strictly_sorted(spec_group_cells(inputs, outputs)),
{
    lemma_add_side_sorted(Seq::empty(), inputs, false);
    lemma_add_side_sorted(add_side(Seq::empty(), inputs, false), outputs, true);
}

fn find_position(entries: &Vec<Entry>, name: &[u8]) -> (p: usize)
    ensures
        p <= entries@.len(),
        p == first_not_before(entries_view(entries@), name@),
{
    let ghost v = entries_view(entries@);
    let mut i: usize = 0;
    while i < entries.len()
        invariant
            v == entries_view(entries@),
            i <= entries@.len(),
            forall|j: int| 0 <= j < i ==> !lex_le(name@, #[trigger] v[j].name),
        decreases entries@.len() - i,
    {
        if bytes_le(name, entries[i].name.as_slice()) {
            proof {
                lemma_first_not_before(v, name@, i as int);
            }
            return i;
        }
        i = i + 1;
    }
    proof {
        lemma_first_not_before(v, name@, i as int);
    }
    i
}

fn add_cell_exec(entries: &mut Vec<Entry>, cell: &NamedCell, is_output: bool) -> (added: bool)
    ensures
        added == add_cell(entries_view(old(entries)@), cell@, is_output) is Some,
        added ==> entries_view(final(entries)@) == add_cell(entries_view(old(entries)@), cell@, is_output).unwrap(),
        !added ==> final(entries)@ == old(entries)@,
{
    let ghost v = entries_view(entries@);
    let p = find_position(entries, cell.name.as_slice());
    if p < entries.len() && bytes_eq(entries[p].name.as_slice(), cell.name.as_slice()) {
        let filled = match (cell.kind, is_output) {
            (CellKind::AccountCell, false) => entries[p].input_account_cell.is_some(),
            (CellKind::AccountCell, true) => entries[p].output_account_cell.is_some(),
            (CellKind::DidCell, false) => entries[p].input_did_cell.is_some(),
            (CellKind::DidCell, true) => entries[p].output_did_cell.is_some(),
        };
        if filled {
            return false;
        }
        let mut e = entries.remove(p);
        match (cell.kind, is_output) {
            (CellKind::AccountCell, false) => {
                e.input_account_cell = Some(cell.index);
            },
            (CellKind::AccountCell, true) => {
                e.output_account_cell = Some(cell.index);
            },
            (CellKind::DidCell, false) => {
                e.input_did_cell = Some(cell.index);
            },
            (CellKind::DidCell, true) => {
                e.output_did_cell = Some(cell.index);
            },
        }
        entries.insert(p, e);
        proof {
            assert(entries_view(entries@) =~= v.update(p as int, fill_slot(v[p as int], cell.kind, is_output, cell.index)));
        }
        true
    } else {
        let mut e = Entry {
            name: crate::bytes::clone_bytes(&cell.name),
            input_account_cell: None,
            output_account_cell: None,
            input_did_cell: None,
            output_did_cell: None,
        };
        match (cell.kind, is_output) {
            (CellKind::AccountCell, false) => {
                e.input_account_cell = Some(cell.index);
            },
            (CellKind::AccountCell, true) => {
                e.output_account_cell = Some(cell.index);
            },
            (CellKind::DidCell, false) => {
                e.input_did_cell = Some(cell.index);
            },
            (CellKind::DidCell, true) => {
                e.output_did_cell = Some(cell.index);
            },
        }
        entries.insert(p, e);
        proof {
            assert(entries_view(entries@) =~= v.insert(
                p as int,
                fill_slot(empty_entry(cell.name@), cell.kind, is_output, cell.index),
            ));
        }
        true
    }
}

fn add_side_exec(entries: &mut Vec<Entry>, cells: &Vec<NamedCell>, is_output: bool)
    ensures
        entries_view(final(entries)@) == add_side(
            entries_view(old(entries)@),
            cells@.map_values(|c: NamedCell| c@),
            is_output,
        ),
{
    let ghost cv = cells@.map_values(|c: NamedCell| c@);
    let ghost target = add_side(entries_view(entries@), cv, is_output);
    let mut i: usize = 0;
    assert(cv.skip(0) =~= cv);
    while i < cells.len()
        invariant
            cv == cells@.map_values(|c: NamedCell| c@),
            target == add_side(entries_view(old(entries)@), cv, is_output),
            i <= cells@.len(),
            add_side(entries_view(entries@), cv.skip(i as int), is_output) == target,
        decreases cells@.len() - i,
    {
        let ghost before = entries_view(entries@);
        proof {
            assert(cv.skip(i as int)[0] == cells@[i as int]@);
            assert(cv.skip(i as int).drop_first() =~= cv.skip(i + 1));
        }
        if !add_cell_exec(entries, &cells[i], is_output) {
            assert(add_side(before, cv.skip(i as int), is_output) == before);
            return;
        }
        i = i + 1;
    }
}

/// Groups the AccountCells and DidCells of a transaction by account name, inputs
/// first, in increasing order of name.
pub fn group_cells_by_account_name(inputs: &Vec<NamedCell>, outputs: &Vec<NamedCell>) -> (r: Vec<Entry>)
    ensures
        entries_view(r@) == spec_group_cells(
            inputs@.map_values(|c: NamedCell| c@),
            outputs@.map_values(|c: NamedCell| c@),
        ),
{
    let mut entries: Vec<Entry> = Vec::new();
    assert(entries_view(entries@) =~= Seq::<SpecEntry>::empty());
    add_side_exec(&mut entries, inputs, false);
    add_side_exec(&mut entries, outputs, true);
    entries
}

/// Whether an entry holds the cell at `index` on the given side.
pub open spec fn entry_holds(e: SpecEntry, index: usize, is_output: bool) -> bool {
    if is_output {
        e.output_account_cell == Some(index) || e.output_did_cell == Some(index)
    } else {
        e.input_account_cell == Some(index) || e.input_did_cell == Some(index)
    }
}

/// Finds the entry that holds the cell at `index` on the given side: the first one in
/// name order, or `None`.
pub fn get_group_by_meta(entries: &Vec<Entry>, index: usize, is_output: bool) -> (r: Option<usize>)
    ensures
        r matches Some(i) ==> i < entries@.len() && entry_holds(entries@[i as int]@, index, is_output) && forall|j: int|
            0 <= j < i ==> !entry_holds(#[trigger] entries@[j]@, index, is_output),
        r is None ==> forall|j: int| 0 <= j < entries@.len() ==> !entry_holds(#[trigger] entries@[j]@, index, is_output),
{
    let mut i: usize = 0;
    while i < entries.len()
        invariant
            i <= entries@.len(),
            forall|j: int| 0 <= j < i ==> !entry_holds(#[trigger] entries@[j]@, index, is_output),
        decreases entries@.len() - i,
    {
        let e = &entries[i];
        let holds = if is_output {
            e.output_account_cell == Some(index) || e.output_did_cell == Some(index)
        } else {
            e.input_account_cell == Some(index) || e.input_did_cell == Some(index)
        };
        if holds {
            return Some(i);
        }
        i = i + 1;
    }
    None
}

/// What the cells of one account name show: the status of its AccountCell in the
/// inputs and in the outputs, whether a DidCell is in the inputs and in the outputs,
/// and the expiry that the AccountCell and the DidCell of the outputs carry.
pub struct EntryFacts {
    pub input_account_status: Option<AccountStatus>,
    pub output_account_status: Option<AccountStatus>,
    pub has_input_did: bool,
    pub has_output_did: bool,
    pub output_account_expired_at: Option<u64>,
    pub output_did_expire_at: Option<u64>,
}

/// Whether an AccountCell and a DidCell are both there and expire at the same time.
pub open spec fn spec_expire_consistent(account_expired_at: Option<u64>, did_expire_at: Option<u64>) -> bool {
    match (account_expired_at, did_expire_at) {
        (Some(a), Some(d)) => a == d,
        _ => false,
    }
}

/// Whether an AccountCell and a DidCell are both there and expire at the same time.
pub fn is_expire_consistent(account_expired_at: Option<u64>, did_expire_at: Option<u64>) -> (r: bool)
    ensures
        r == spec_expire_consistent(account_expired_at, did_expire_at),
{
    match (account_expired_at, did_expire_at) {
        (Some(a), Some(d)) => a == d,
        _ => false,
    }
}

/// Whether the contract aborts on the cells of an account name: an AccountCell created
/// already upgraded, or one upgraded from a status other than Normal.
pub open spec fn entry_aborts(e: EntryFacts) -> bool {
    match (e.input_account_status, e.output_account_status) {
        (None, Some(b)) => b == AccountStatus::Upgraded,
        (Some(a), Some(b)) => b == AccountStatus::Upgraded && a != AccountStatus::Normal && a
            != AccountStatus::Upgraded,
        _ => false,
    }
}

/// Whether the cells of an account name upgrade a Normal AccountCell to a DidCell.
/// An AccountCell created in the outputs without one in the inputs makes the contract
/// abort, so it is left out.
pub fn is_upgrade(e: &EntryFacts) -> (r: bool)
    requires
        !(e.input_account_status is None && e.output_account_status is Some),
    ensures
        r == (e.input_account_status == Some(AccountStatus::Normal) && e.output_account_status == Some(
            AccountStatus::Upgraded,
        )),
{
    match (e.input_account_status, e.output_account_status) {
        (Some(a), Some(b)) => a == AccountStatus::Normal && b == AccountStatus::Upgraded,
        _ => false,
    }
}

/// The actions that matter to upgraded accounts.
#[derive(Debug, Clone, Copy, PartialEq, Eq, Structural)]
pub enum DidAction {
    UpgradeDid,
    EditRecords,
    RenewAccount,
    TransferAccount,
    BidExpiredAccountDutchAuction,
    ConfirmProposal,
    RecycleExpiredAccount,
    Other,
}

/// Whether an action may upgrade an account to a DidCell.
pub open spec fn may_upgrade(action: DidAction) -> bool {
    action == DidAction::UpgradeDid || action == DidAction::EditRecords || action == DidAction::RenewAccount
        || action == DidAction::TransferAccount || action == DidAction::BidExpiredAccountDutchAuction
}

/// What checking the cells of one account name gives. Upgrading a Normal AccountCell
/// puts a DidCell in the outputs and none in the inputs, by an action that may
/// upgrade, with the same expiry on both cells. An account that is already upgraded
/// may only be renewed, with a DidCell on both sides and the same expiry on both
/// cells in the outputs, or touched by a proposal or a recycle. Anything else does
/// not concern DidCells.
pub open spec fn spec_verify_entry(e: EntryFacts, action: DidAction) -> Result<(), DasError> {
    let consistent = spec_expire_consistent(e.output_account_expired_at, e.output_did_expire_at);
    let structure = DasError::AccountCell(AccountCellErrorCode::InvalidUpgradeTxStructure);
    match (e.input_account_status, e.output_account_status) {
        (Some(a), Some(b)) => if a == AccountStatus::Normal && b == AccountStatus::Upgraded {
            if e.has_input_did {
                Err(structure)
            } else if !e.has_output_did {
                Err(structure)
            } else if !may_upgrade(action) {
                Err(DasError::AccountCell(AccountCellErrorCode::InvalidUpgradeAction))
            } else if !consistent {
                Err(structure)
            } else {
                Ok(())
            }
        } else if a == AccountStatus::Upgraded && b == AccountStatus::Upgraded {
            if action == DidAction::RenewAccount {
                if !e.has_input_did {
                    Err(structure)
                } else if !e.has_output_did {
                    Err(structure)
                } else if !consistent {
                    Err(structure)
                } else {
                    Ok(())
                }
            } else if action == DidAction::ConfirmProposal || action == DidAction::RecycleExpiredAccount {
                Ok(())
            } else {
                Err(DasError::AccountCell(AccountCellErrorCode::InvalidUpgradeAction))
            }
        } else {
            Ok(())
        },
        _ => Ok(()),
    }
}

/// Checks the cells of one account name against the rules of DidCells.
pub fn verify_entry(e: &EntryFacts, action: DidAction) -> (r: Result<(), DasError>)
    requires
        !entry_aborts(*e),
    ensures
        r == spec_verify_entry(*e, action),
{
    let structure = DasError::AccountCell(AccountCellErrorCode::InvalidUpgradeTxStructure);
    let (a, b) = match (e.input_account_status, e.output_account_status) {
        (Some(a), Some(b)) => (a, b),
        _ => {
            return Ok(());
        },
    };
    if a == AccountStatus::Normal && b == AccountStatus::Upgraded {
        if e.has_input_did {
            return Err(structure);
        }
        if !e.has_output_did {
            return Err(structure);
        }
        if !(action == DidAction::UpgradeDid || action == DidAction::EditRecords || action
            == DidAction::RenewAccount || action == DidAction::TransferAccount || action
            == DidAction::BidExpiredAccountDutchAuction) {
            return Err(DasError::AccountCell(AccountCellErrorCode::InvalidUpgradeAction));
        }
        if !is_expire_consistent(e.output_account_expired_at, e.output_did_expire_at) {
            return Err(structure);
        }
        Ok(())
    } else if a == AccountStatus::Upgraded && b == AccountStatus::Upgraded {
        if action == DidAction::RenewAccount {
            if !e.has_input_did {
                return Err(structure);
            }
            if !e.has_output_did {
                return Err(structure);
            }
            if !is_expire_consistent(e.output_account_expired_at, e.output_did_expire_at) {
                return Err(structure);
            }
            Ok(())
        } else if action == DidAction::ConfirmProposal || action == DidAction::RecycleExpiredAccount {
            Ok(())
        } else {
            Err(DasError::AccountCell(AccountCellErrorCode::InvalidUpgradeAction))
        }
    } else {
        Ok(())
    }
}

/// What checking every account name of a transaction gives: the first error in name
/// order, or `Ok`.
pub open spec fn spec_verify_entries(es: Seq<EntryFacts>, action: DidAction) -> Result<(), DasError>
    decreases es.len(),
{
    if es.len() == 0 {
        Ok(())
    } else {
        match spec_verify_entry(es[0], action) {
            Err(e) => Err(e),
            Ok(()) => spec_verify_entries(es.drop_first(), action),
        }
    }
}

/// Checks every account name of a transaction against the rules of DidCells, in the
/// order of the entries.
pub fn verify_did_cell_related_logic(entries: &Vec<EntryFacts>, action: DidAction) -> (r: Result<(), DasError>)
    requires
        forall|i: int| 0 <= i < entries@.len() ==> !entry_aborts(#[trigger] entries@[i]),
    ensures
        r == spec_verify_entries(entries@, action),
{
    let mut i: usize = 0;
    assert(entries@.skip(0) =~= entries@);
    while i < entries.len()
        invariant
            i <= entries@.len(),
            forall|j: int| 0 <= j < entries@.len() ==> !entry_aborts(#[trigger] entries@[j]),
            spec_verify_entries(entries@, action) == spec_verify_entries(entries@.skip(i as int), action),
        decreases entries@.len() - i,
    {
        assert(entries@.skip(i as int)[0] == entries@[i as int]);
        assert(entries@.skip(i as int).drop_first() =~= entries@.skip(i + 1));
        let checked = verify_entry(&entries[i], action);
        if checked.is_err() {
            return checked;
        }
        i = i + 1;
    }
    Ok(())
}

} // verus!
