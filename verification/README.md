# did_contracts

Verified transaction rules of the .bit (DAS) cell contracts on CKB. Each contract
checks the cells and witnesses of a transaction; this crate states those checks as
functions over plain values (bytes, integers, lists) with Verus contracts, and proves
them.

What the contracts read from the chain (cells, witnesses, headers, the roots that
SMT proofs compute) is handed to these functions as arguments. So are the outcomes
of the shared checks that live outside this crate: signatures and their age, signing
roles, account names and their characters, record keys, lock arguments, expirations,
the suffixes of sub-accounts, and the comparison of cell data field by field. Each
function states in which order it reads these outcomes and passes on their errors;
it decides the rest, among other things which root and which value each SMT proof
must be checked against, and whether it was.

Modules:

- `account_cell`, `approval`, `did_upgrade`: AccountCell actions, transfer approvals,
  upgrades to DidCells.
- `account_sale`, `offer`, `cell_rules`: the secondary market, wallet, apply-register,
  on-sale, config and balance cells.
- `pre_account`, `refund`: registration requests and their refunds.
- `proposal`, `proposal_cells`, `proposal_exec`, `proposal_confirm`, `profit_map`:
  proposals that turn requests into accounts, and where their profit goes.
- `sub_account`, `sub_account_update`, `sub_action`: sub-accounts, their witnesses and
  the profits of their registrations and renewals.
- `reverse_record`, `device_key_list`, `did_cell`, `custom_script`, `semantic`: the
  other contracts, and the messages that signers see.
- `bytes`, `types`, `error`: shared helpers, types and error codes.

Laws of the library are public proof functions named `lemma_*`.

The tests in `tests/` run the library on concrete transactions.
