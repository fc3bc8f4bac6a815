//! Verified transaction rules of the .bit (DAS) cell contracts: the checks that each
//! contract makes on the cells and witnesses of a transaction, stated over plain values.

pub mod account_cell;
pub mod account_sale;
pub mod approval;
pub mod bytes;
pub mod cell_rules;
pub mod error;
pub mod offer;
pub mod pre_account;
pub mod profit_map;
pub mod proposal;
pub mod proposal_cells;
pub mod proposal_confirm;
pub mod proposal_exec;
pub mod refund;
pub mod reverse_record;
pub mod semantic;
pub mod sub_account;
pub mod sub_account_update;
pub mod sub_action;
pub mod types;
pub mod device_key_list;
pub mod custom_script;
pub mod did_cell;
pub mod did_upgrade;
