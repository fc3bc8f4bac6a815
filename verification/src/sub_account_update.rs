use vstd::prelude::*;

use crate::bytes::{bytes_eq, bytes_list_view};
use crate::error::{DasError, ErrorCode, SubAccountCellErrorCode};
use crate::sub_account::{opt_bytes_view, verify_custom_script_changed, SubAccountConfigFlag};
use crate::types::AccountStatus;

verus! {

/// Who of the parent account signed a mint or a renewal.
#[derive(Debug, Clone, Copy, PartialEq, Eq, Structural)]
pub enum LockRole {
    Owner,
    Manager,
}

/// What the signatures of a mint and of a renewal decide: whether some signature was
/// verified, and who of the parent account pays, where one was.
#[derive(Debug, Clone, Copy, PartialEq, Eq, Structural)]
pub struct SignDecision {
    pub sign_verified: bool,
    pub sender_role: Option<LockRole>,
}

/// What the signatures of an update decide. `mint_sign` and `renew_sign` are the
/// witnesses of the mint and of the renewal, where there are, each with the role it
/// names; the sender is the manager where the role says so, else the owner. A mint
/// signature only counts with creations; a renewal signature only with renewals, and
/// without renewals it is refused; where both sign, and the mint one names a role,
/// both name the same role.
pub open spec fn spec_decide_signs(
    contains_creation: bool,
    contains_renew: bool,
    mint_sign: Option<Option<LockRole>>,
    renew_sign: Option<Option<LockRole>>,
) -> Result<SignDecision, SubAccountCellErrorCode> {
    let role_of = |r: Option<LockRole>| if r == Some(LockRole::Manager) {
        LockRole::Manager
    } else {
        LockRole::Owner
    };
    let mint_used = contains_creation && mint_sign is Some;
    let mint_role: Option<LockRole> = if mint_used {
        mint_sign->Some_0
    } else {
        None
    };
    if !contains_renew && renew_sign is Some {
        Err(SubAccountCellErrorCode::SubAccountRenewSignIsNotAllowed)
    } else if contains_renew && renew_sign is Some && mint_role is Some && mint_role != renew_sign->Some_0 {
        Err(SubAccountCellErrorCode::MultipleSignRolesIsNotAllowed)
    } else {
        let renew_used = contains_renew && renew_sign is Some;
        Ok(
            SignDecision {
                sign_verified: mint_used || renew_used,
                sender_role: if mint_used && (!renew_used || mint_role is Some) {
                    Some(role_of(mint_role))
                } else if renew_used {
                    Some(role_of(renew_sign->Some_0))
                } else {
                    None
                },
            },
        )
    }
}

fn role_of(r: Option<LockRole>) -> (out: LockRole)
    ensures
        out == (if r == Some(LockRole::Manager) {
            LockRole::Manager
        } else {
            LockRole::Owner
        }),
{
    match r {
        Some(LockRole::Manager) => LockRole::Manager,
        _ => LockRole::Owner,
    }
}

/// Decides from the signatures of an update whether one was verified and who pays.
/// The signatures themselves are checked elsewhere; the contract only looks at them
/// where the update creates or renews sub-accounts.
pub fn decide_signs(
    contains_creation: bool,
    contains_renew: bool,
    mint_sign: Option<Option<LockRole>>,
    renew_sign: Option<Option<LockRole>>,
) -> (r: Result<SignDecision, SubAccountCellErrorCode>)
    requires
        contains_creation || contains_renew,
    ensures
        r == spec_decide_signs(contains_creation, contains_renew, mint_sign, renew_sign),
{
    let mut sign_verified = false;
    let mut sender_role: Option<LockRole> = None;
    let mut mint_role: Option<LockRole> = None;
    if contains_creation {
        if let Some(role) = mint_sign {
            sign_verified = true;
            mint_role = role;
            sender_role = Some(role_of(role));
        }
    }
    if contains_renew {
        if let Some(role) = renew_sign {
            sign_verified = true;
            if mint_role.is_some() {
                if mint_role != role {
                    return Err(SubAccountCellErrorCode::MultipleSignRolesIsNotAllowed);
                }
            } else {
                sender_role = Some(role_of(role));
            }
        }
    } else if renew_sign.is_some() {
        return Err(SubAccountCellErrorCode::SubAccountRenewSignIsNotAllowed);
    }
    Ok(SignDecision { sign_verified, sender_role })
}

/// What checking the inputs with das-lock gives: where a signature was verified, they
/// are exactly the sender's balance cells; otherwise there are none.
pub open spec fn spec_verify_das_lock_inputs(
    sign_verified: bool,
    das_lock_inputs: Seq<usize>,
    sender_balance_cells: Seq<usize>,
) -> Result<(), SubAccountCellErrorCode> {
    if sign_verified {
        if das_lock_inputs != sender_balance_cells {
            Err(SubAccountCellErrorCode::SomeCellWithDasLockMayBeAbused)
        } else {
            Ok(())
        }
    } else if das_lock_inputs.len() != 0 {
        Err(SubAccountCellErrorCode::SomeCellWithDasLockMayBeAbused)
    } else {
        Ok(())
    }
}

/// Checks that no cell with das-lock is spent in an update without its owner's
/// consent, given the indexes of the inputs with das-lock and of the sender's
/// balance cells.
pub fn verify_das_lock_inputs(sign_verified: bool, das_lock_inputs: &Vec<usize>, sender_balance_cells: &Vec<usize>) -> (r:
    Result<(), SubAccountCellErrorCode>)
    ensures
        r == spec_verify_das_lock_inputs(sign_verified, das_lock_inputs@, sender_balance_cells@),
{
    if sign_verified {
        if das_lock_inputs.len() != sender_balance_cells.len() {
            return Err(SubAccountCellErrorCode::SomeCellWithDasLockMayBeAbused);
        }
        let mut i: usize = 0;
        while i < das_lock_inputs.len()
            invariant
                sign_verified,
                das_lock_inputs@.len() == sender_balance_cells@.len(),
                i <= das_lock_inputs@.len(),
                forall|j: int| 0 <= j < i ==> das_lock_inputs@[j] == sender_balance_cells@[j],
            decreases das_lock_inputs@.len() - i,
        {
            if das_lock_inputs[i] != sender_balance_cells[i] {
                return Err(SubAccountCellErrorCode::SomeCellWithDasLockMayBeAbused);
            }
            i = i + 1;
        }
        assert(das_lock_inputs@ =~= sender_balance_cells@);
        Ok(())
    } else if das_lock_inputs.len() != 0 {
        Err(SubAccountCellErrorCode::SomeCellWithDasLockMayBeAbused)
    } else {
        Ok(())
    }
}

/// Checks that the last witness of an update leaves the SMT root that the
/// SubAccountCell in the outputs holds; without witnesses there is nothing to check.
pub fn verify_latest_sub_account_root(new_roots: &Vec<Vec<u8>>, latest_root: &[u8]) -> (r: Result<
    (),
    SubAccountCellErrorCode,
>)
    ensures
        r is Ok <==> (new_roots@.len() == 0 || new_roots@.last()@ == latest_root@),
        r matches Err(e) ==> e == SubAccountCellErrorCode::SubAccountWitnessMismatched,
{
    if new_roots.len() == 0 {
        return Ok(());
    }
    if bytes_eq(new_roots[new_roots.len() - 1].as_slice(), latest_root) {
        Ok(())
    } else {
        Err(SubAccountCellErrorCode::SubAccountWitnessMismatched)
    }
}

/// The hash of a rule list that is not set: ten zero bytes.
pub open spec fn empty_rules_hash() -> Seq<u8> {
    Seq::new(10, |i: int| 0u8)
}

/// What checking one rule list of a new configuration gives. A list whose hash is set
/// must be in the witnesses and must parse; `rules_parse` is `None` where the
/// witnesses hold no such list, else whether it parses.
pub open spec fn spec_check_rules(hash: Option<Seq<u8>>, rules_parse: Option<bool>) -> Result<(), SubAccountCellErrorCode> {
    if hash == Some(empty_rules_hash()) {
        Ok(())
    } else {
        match rules_parse {
            None => Err(SubAccountCellErrorCode::ConfigRulesHashMismatch),
            Some(true) => Ok(()),
            Some(false) => Err(SubAccountCellErrorCode::ConfigRulesHasSyntaxError),
        }
    }
}

fn is_empty_rules_hash(hash: &Option<Vec<u8>>) -> (r: bool)
    ensures
        r == (match hash {
            Some(h) => Some(h@),
            None => None,
        } == Some(empty_rules_hash())),
{
    match hash {
        None => false,
        Some(h) => {
            let zeros: [u8; 10] = [0; 10];
            assert(zeros@ =~= empty_rules_hash());
            bytes_eq(h.as_slice(), &zeros)
        },
    }
}

fn check_rules(hash: &Option<Vec<u8>>, rules_parse: Option<bool>) -> (r: Result<(), SubAccountCellErrorCode>)
    ensures
        r == spec_check_rules(
            match hash {
                Some(h) => Some(h@),
                None => None,
            },
            rules_parse,
        ),
{
    if is_empty_rules_hash(hash) {
        return Ok(());
    }
    match rules_parse {
        None => Err(SubAccountCellErrorCode::ConfigRulesHashMismatch),
        Some(true) => Ok(()),
        Some(false) => Err(SubAccountCellErrorCode::ConfigRulesHasSyntaxError),
    }
}

/// What checking a new configuration of a SubAccountCell gives: the rest of the
/// SubAccountCell, all but the fields that [`config_changeable_fields`] gives, stays as
/// it was (`rest_check` is what comparing it gave); the flag is there and
/// says custom rules or manual minting; the data of the SubAccountCell passes the check
/// of that mode (`mode_check` is what it gave); with custom rules, the price rules and
/// then the preserved rules pass their checks.
pub open spec fn spec_verify_sub_account_config(
    rest_check: Result<(), DasError>,
    flag: Option<SubAccountConfigFlag>,
    mode_check: Result<(), DasError>,
    price_rules_hash: Option<Seq<u8>>,
    price_rules_parse: Option<bool>,
    preserved_rules_hash: Option<Seq<u8>>,
    preserved_rules_parse: Option<bool>,
) -> Result<(), DasError> {
    if rest_check is Err {
        rest_check
    } else {
        match flag {
        None => Err(DasError::Common(ErrorCode::HardCodedError)),
        Some(SubAccountConfigFlag::CustomRule) => if mode_check is Err {
            mode_check
        } else if spec_check_rules(price_rules_hash, price_rules_parse) is Err {
            Err(DasError::SubAccountCell(spec_check_rules(price_rules_hash, price_rules_parse)->Err_0))
        } else if spec_check_rules(preserved_rules_hash, preserved_rules_parse) is Err {
            Err(DasError::SubAccountCell(spec_check_rules(preserved_rules_hash, preserved_rules_parse)->Err_0))
        } else {
            Ok(())
        },
        Some(SubAccountConfigFlag::Manual) => mode_check,
        Some(_) => Err(DasError::SubAccountCell(SubAccountCellErrorCode::ConfigFlagInvalid)),
        }
    }
}

/// Checks a new configuration of a SubAccountCell.
pub fn verify_sub_account_config(
    rest_check: Result<(), DasError>,
    flag: Option<SubAccountConfigFlag>,
    mode_check: Result<(), DasError>,
    price_rules_hash: &Option<Vec<u8>>,
    price_rules_parse: Option<bool>,
    preserved_rules_hash: &Option<Vec<u8>>,
    preserved_rules_parse: Option<bool>,
) -> (r: Result<(), DasError>)
    ensures
        r == spec_verify_sub_account_config(
            rest_check,
            flag,
            mode_check,
            match price_rules_hash {
                Some(h) => Some(h@),
                None => None,
            },
            price_rules_parse,
            match preserved_rules_hash {
                Some(h) => Some(h@),
                None => None,
            },
            preserved_rules_parse,
        ),
{
    if rest_check.is_err() {
        return rest_check;
    }
    match flag {
        None => Err(DasError::Common(ErrorCode::HardCodedError)),
        Some(SubAccountConfigFlag::CustomRule) => {
            if mode_check.is_err() {
                return mode_check;
            }
            if let Err(e) = check_rules(price_rules_hash, price_rules_parse) {
                return Err(DasError::SubAccountCell(e));
            }
            if let Err(e) = check_rules(preserved_rules_hash, preserved_rules_parse) {
                return Err(DasError::SubAccountCell(e));
            }
            Ok(())
        },
        Some(SubAccountConfigFlag::Manual) => mode_check,
        Some(_) => Err(DasError::SubAccountCell(SubAccountCellErrorCode::ConfigFlagInvalid)),
    }
}

/// The owner and the manager that the arguments of a das-lock name: each a lock type
/// and its arguments.
#[derive(Debug)]
pub struct LockParties {
    pub owner_type: u8,
    pub owner_args: Vec<u8>,
    pub manager_type: u8,
    pub manager_args: Vec<u8>,
}

/// What an edit of a sub-account changes.
#[derive(Debug, Clone, Copy, PartialEq, Eq, Structural)]
pub enum EditKind {
    Owner,
    Manager,
    Records,
    Other,
}

/// What checking an edit of a sub-account gives: a new owner or manager needs the
/// status Normal, and changes the owner, or keeps the owner and changes the manager;
/// new records need the status Normal or ApprovedTransfer and keys that pass their
/// check (`records_keys` is what that check gave); nothing else may be edited.
pub open spec fn spec_verify_sub_account_edit(
    kind: EditKind,
    status: AccountStatus,
    current: LockParties,
    new: LockParties,
    records_keys: Result<(), DasError>,
) -> Result<(), DasError> {
    let same_owner = current.owner_type == new.owner_type && current.owner_args@ == new.owner_args@;
    let same_manager = current.manager_type == new.manager_type && current.manager_args@ == new.manager_args@;
    let status_error = DasError::SubAccountCell(SubAccountCellErrorCode::AccountStatusError);
    let lock_error = DasError::SubAccountCell(SubAccountCellErrorCode::SubAccountEditLockError);
    match kind {
        EditKind::Owner => if status != AccountStatus::Normal {
            Err(status_error)
        } else if same_owner {
            Err(lock_error)
        } else {
            Ok(())
        },
        EditKind::Manager => if status != AccountStatus::Normal {
            Err(status_error)
        } else if !same_owner {
            Err(lock_error)
        } else if same_manager {
            Err(lock_error)
        } else {
            Ok(())
        },
        EditKind::Records => if !(status == AccountStatus::Normal || status == AccountStatus::ApprovedTransfer) {
            Err(status_error)
        } else {
            records_keys
        },
        EditKind::Other => Err(DasError::SubAccountCell(SubAccountCellErrorCode::SubAccountFieldNotEditable)),
    }
}

/// Checks an edit of a sub-account, given the owner and manager of its lock before and
/// after (the same where the lock is not edited) and what checking the keys of new
/// records gave.
pub fn verify_sub_account_edit(
    kind: EditKind,
    status: AccountStatus,
    current: &LockParties,
    new: &LockParties,
    records_keys: Result<(), DasError>,
) -> (r: Result<(), DasError>)
    ensures
        r == spec_verify_sub_account_edit(kind, status, *current, *new, records_keys),
{
    let same_owner = current.owner_type == new.owner_type && bytes_eq(
        current.owner_args.as_slice(),
        new.owner_args.as_slice(),
    );
    let same_manager = current.manager_type == new.manager_type && bytes_eq(
        current.manager_args.as_slice(),
        new.manager_args.as_slice(),
    );
    let status_error = DasError::SubAccountCell(SubAccountCellErrorCode::AccountStatusError);
    let lock_error = DasError::SubAccountCell(SubAccountCellErrorCode::SubAccountEditLockError);
    match kind {
        EditKind::Owner => if status != AccountStatus::Normal {
            Err(status_error)
        } else if same_owner {
            Err(lock_error)
        } else {
            Ok(())
        },
        EditKind::Manager => if status != AccountStatus::Normal {
            Err(status_error)
        } else if !same_owner {
            Err(lock_error)
        } else if same_manager {
            Err(lock_error)
        } else {
            Ok(())
        },
        EditKind::Records => if !(status == AccountStatus::Normal || status == AccountStatus::ApprovedTransfer) {
            Err(status_error)
        } else {
            records_keys
        },
        EditKind::Other => Err(DasError::SubAccountCell(SubAccountCellErrorCode::SubAccountFieldNotEditable)),
    }
}

/// Checks that a sub-account to recycle is Normal or ApprovedTransfer.
pub fn verify_recycle_status(status: AccountStatus) -> (r: Result<(), SubAccountCellErrorCode>)
    ensures
        r is Ok <==> (status == AccountStatus::Normal || status == AccountStatus::ApprovedTransfer),
        r matches Err(e) ==> e == SubAccountCellErrorCode::AccountStatusError,
{
    if status == AccountStatus::Normal || status == AccountStatus::ApprovedTransfer {
        Ok(())
    } else {
        Err(SubAccountCellErrorCode::AccountStatusError)
    }
}

/// A list without the element at `skip` (the whole list where `skip` is past its end).
pub open spec fn without(v: Seq<Seq<u8>>, skip: usize) -> Seq<Seq<u8>> {
    if skip < v.len() {
        v.take(skip as int) + v.skip(skip + 1)
    } else {
        v
    }
}

/// Whether every lock hash in a list is the first one.
pub open spec fn all_same(v: Seq<Seq<u8>>) -> bool {
    forall|i: int| 0 <= i < v.len() ==> #[trigger] v[i] == v[0]
}

fn push_without(out: &mut Vec<Vec<u8>>, v: &Vec<Vec<u8>>, skip: usize)
    ensures
        bytes_list_view(final(out)@) == bytes_list_view(old(out)@) + without(bytes_list_view(v@), skip),
{
    let ghost start = bytes_list_view(out@);
    let ghost vv = bytes_list_view(v@);
    let ghost kept = without(vv, skip);
    let mut i: usize = 0;
    let mut n: usize = 0;
    while i < v.len()
        invariant
            vv == bytes_list_view(v@),
            kept == without(vv, skip),
            i <= v@.len(),
            n == (if skip < i { i - 1 } else { i as int }),
            n <= kept.len(),
            bytes_list_view(out@) == start + kept.take(n as int),
        decreases v@.len() - i,
    {
        if i != skip {
            let ghost before = bytes_list_view(out@);
            out.push(crate::bytes::clone_bytes(&v[i]));
            proof {
                assert(kept[n as int] == vv[i as int]);
                assert(bytes_list_view(out@) =~= before.push(vv[i as int]));
                assert(kept.take(n as int + 1) =~= kept.take(n as int).push(kept[n as int]));
            }
            n = n + 1;
        }
        i = i + 1;
    }
    assert(kept.take(n as int) =~= kept);
}

/// Checks that every cell other than the SubAccountCell, in the inputs and in the
/// outputs, has one and the same lock, given the lock hashes of all inputs and outputs
/// and the positions of the SubAccountCell.
pub fn verify_there_is_only_one_lock_for_normal_cells(
    input_lock_hashes: &Vec<Vec<u8>>,
    input_sub_account_cell: usize,
    output_lock_hashes: &Vec<Vec<u8>>,
    output_sub_account_cell: usize,
) -> (r: Result<(), SubAccountCellErrorCode>)
    ensures
        r is Ok <==> all_same(
            without(bytes_list_view(input_lock_hashes@), input_sub_account_cell) + without(
                bytes_list_view(output_lock_hashes@),
                output_sub_account_cell,
            ),
        ),
        r matches Err(e) ==> e == SubAccountCellErrorCode::SubAccountNormalCellLockLimit,
{
    let mut cells: Vec<Vec<u8>> = Vec::new();
    assert(bytes_list_view(cells@) =~= Seq::<Seq<u8>>::empty());
    push_without(&mut cells, input_lock_hashes, input_sub_account_cell);
    push_without(&mut cells, output_lock_hashes, output_sub_account_cell);
    let ghost cv = bytes_list_view(cells@);
    assert(cv =~= without(bytes_list_view(input_lock_hashes@), input_sub_account_cell) + without(
        bytes_list_view(output_lock_hashes@),
        output_sub_account_cell,
    ));
    let mut i: usize = 0;
    while i < cells.len()
        invariant
            cv == bytes_list_view(cells@),
            cv == without(bytes_list_view(input_lock_hashes@), input_sub_account_cell) + without(
                bytes_list_view(output_lock_hashes@),
                output_sub_account_cell,
            ),
            cv.len() == cells@.len(),
            i <= cells@.len(),
            forall|j: int| 0 <= j < i ==> #[trigger] cv[j] == cv[0],
        decreases cells@.len() - i,
    {
        if !bytes_eq(cells[i].as_slice(), cells[0].as_slice()) {
            assert(cv[i as int] != cv[0]);
            assert(!all_same(cv));
            return Err(SubAccountCellErrorCode::SubAccountNormalCellLockLimit);
        }
        i = i + 1;
    }
    Ok(())
}

/// The fields of the data of a SubAccountCell that a transaction may change; all the
/// others must stay as they were.
#[derive(Debug, Clone, Copy, PartialEq, Eq, Structural)]
pub struct ChangeableFields {
    pub smt_root: bool,
    pub das_profit: bool,
    pub owner_profit: bool,
}

/// What an update of sub-accounts may change in its SubAccountCell: where it registers
/// or renews, the root and the profit of DAS, and the profit of the owner too in the
/// custom script mode; where it only edits or recycles, the root; otherwise nothing.
pub open spec fn spec_update_changeable_fields(
    contains_creation: bool,
    contains_renew: bool,
    contains_edition: bool,
    contains_recycle: bool,
    flag: SubAccountConfigFlag,
) -> ChangeableFields {
    if contains_creation || contains_renew {
        ChangeableFields {
            smt_root: true,
            das_profit: true,
            owner_profit: flag == SubAccountConfigFlag::CustomScript,
        }
    } else if contains_edition || contains_recycle {
        ChangeableFields { smt_root: true, das_profit: false, owner_profit: false }
    } else {
        ChangeableFields { smt_root: false, das_profit: false, owner_profit: false }
    }
}

/// Gives the fields of the SubAccountCell that an update of sub-accounts may change, by
/// the actions its witnesses hold and the mode of the SubAccountCell.
pub fn update_changeable_fields(
    contains_creation: bool,
    contains_renew: bool,
    contains_edition: bool,
    contains_recycle: bool,
    flag: SubAccountConfigFlag,
) -> (r: ChangeableFields)
    ensures
        r == spec_update_changeable_fields(
            contains_creation,
            contains_renew,
            contains_edition,
            contains_recycle,
            flag,
        ),
{
    if contains_creation || contains_renew {
        ChangeableFields {
            smt_root: true,
            das_profit: true,
            owner_profit: flag == SubAccountConfigFlag::CustomScript,
        }
    } else if contains_edition || contains_recycle {
        ChangeableFields { smt_root: true, das_profit: false, owner_profit: false }
    } else {
        ChangeableFields { smt_root: false, das_profit: false, owner_profit: false }
    }
}

/// Gives the fields of the SubAccountCell that a collection of profits may change: the
/// profit of DAS, and the profit of the owner too unless the profit manager collects.
pub fn collect_changeable_fields(by_profit_manager: bool) -> (r: ChangeableFields)
    ensures
        r == (ChangeableFields { smt_root: false, das_profit: true, owner_profit: !by_profit_manager }),
{
    ChangeableFields { smt_root: false, das_profit: true, owner_profit: !by_profit_manager }
}

/// The configuration fields of the data of a SubAccountCell that a change of its
/// configuration may change; all the others must stay as they were.
#[derive(Debug, Clone, Copy, PartialEq, Eq, Structural)]
pub struct ConfigChangeableFields {
    pub flag: bool,
    pub custom_rule_status_flag: bool,
    pub price_rules: bool,
    pub preserved_rules: bool,
    pub custom_script: bool,
    pub custom_script_args: bool,
}

/// What a change of configuration may change in the SubAccountCell: the flag, with
/// the custom script and its arguments where the custom script is set, or else with
/// the status of the custom rules and the two rule lists.
pub open spec fn spec_config_changeable_fields(custom_script: bool) -> ConfigChangeableFields {
    ConfigChangeableFields {
        flag: true,
        custom_rule_status_flag: !custom_script,
        price_rules: !custom_script,
        preserved_rules: !custom_script,
        custom_script: custom_script,
        custom_script_args: custom_script,
    }
}

/// Gives the fields of the SubAccountCell that a change of its configuration may
/// change, by whether the change sets the custom script.
pub fn config_changeable_fields(custom_script: bool) -> (r: ConfigChangeableFields)
    ensures
        r == spec_config_changeable_fields(custom_script),
{
    ConfigChangeableFields {
        flag: true,
        custom_rule_status_flag: !custom_script,
        price_rules: !custom_script,
        preserved_rules: !custom_script,
        custom_script: custom_script,
        custom_script_args: custom_script,
    }
}

/// What setting the custom script of a SubAccountCell gives: the script or its
/// arguments change, and the rest of the SubAccountCell, all but the fields that
/// [`config_changeable_fields`] gives for it, stays as it was (`rest_check` is what
/// comparing the rest gave).
pub open spec fn spec_config_custom_script(
    input_script: Option<Seq<u8>>,
    output_script: Option<Seq<u8>>,
    input_args: Option<Seq<u8>>,
    output_args: Option<Seq<u8>>,
    rest_check: Result<(), DasError>,
) -> Result<(), DasError> {
    if input_script == output_script && input_args == output_args {
        Err(DasError::SubAccountCell(SubAccountCellErrorCode::SubAccountCustomScriptError))
    } else {
        rest_check
    }
}

/// Checks a change of the custom script of a SubAccountCell.
pub fn config_custom_script(
    input_script: &Option<Vec<u8>>,
    output_script: &Option<Vec<u8>>,
    input_args: &Option<Vec<u8>>,
    output_args: &Option<Vec<u8>>,
    rest_check: Result<(), DasError>,
) -> (r: Result<(), DasError>)
    ensures
        r == spec_config_custom_script(
            opt_bytes_view(*input_script),
            opt_bytes_view(*output_script),
            opt_bytes_view(*input_args),
            opt_bytes_view(*output_args),
            rest_check,
        ),
{
    match verify_custom_script_changed(input_script, output_script, input_args, output_args) {
        Ok(()) => rest_check,
        Err(e) => Err(DasError::SubAccountCell(e)),
    }
}

/// A change of the custom script is accepted only where the script or its arguments
/// change and the rest of the SubAccountCell stays as it was.
pub proof fn lemma_accepted_custom_script_change_keeps_the_rest(
    input_script: Option<Seq<u8>>,
    output_script: Option<Seq<u8>>,
    input_args: Option<Seq<u8>>,
    output_args: Option<Seq<u8>>,
    rest_check: Result<(), DasError>,
)
    requires
        spec_config_custom_script(input_script, output_script, input_args, output_args, rest_check) is Ok,
    ensures
        input_script != output_script || input_args != output_args,
        rest_check is Ok,
{
}

} // verus!
