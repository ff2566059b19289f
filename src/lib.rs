//! A single-asset liquidity pool that issues flash loans.
//!
//! Providers deposit one fungible asset and receive shares that redeem for a
//! proportional part of the pool's holdings. Anyone may borrow the pool's
//! funds within one atomic unit of work, provided the balance plus a fee on
//! the borrowed amount is back before that unit of work commits.
//!
//! The library holds the share ledger, the configuration and the decisions of
//! every operation. The host hands it the pool's live balance and carries out
//! the outbound messages that the operations return, in order.

mod contract;
mod denom;
mod error;
mod ledger;
mod math;
mod msg;
mod receiver;
mod state;

pub use contract::{
    assert_balance_spec, deposit_spec, execute_assert_balance, execute_loan,
    execute_provide_cw20, execute_provide_native, execute_update_config, execute_withdraw,
    fee_on, instantiate, is_admin, lemma_loan_settles_exactly, loan_expected, loan_messages,
    loan_transfer, payout, query, query_entitled, query_get_config, query_provided,
    query_total_provided,
};
pub use denom::{
    checked_spec, get_only_denom_amount, only_denom_amount_spec, CheckedLoanDenom, Coin,
    LoanDenom,
};
pub use error::ContractError;
pub use ledger::{
    entitlement, lemma_deposit_redeems_for_at_most_itself, lemma_entitlements_within_balance,
    provide_spec, providers_unique, share_map, shares_to_mint, sum_entitlements, sum_shares,
    withdraw_spec, Provision, ShareLedger,
};
pub use math::ratio_floor;
pub use msg::{ConfigResponse, LoanMsg, OutboundMsg, QueryAnswer, QueryMsg};
pub use receiver::ReceiverConfig;
pub use state::{Config, Pool, FEE_FRACTIONAL};
