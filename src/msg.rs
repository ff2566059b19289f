use crate::denom::CheckedLoanDenom;
use vstd::prelude::*;

verus! {

/// The read-only questions a pool answers.
#[derive(Debug, Clone, PartialEq, Eq)]
pub enum QueryMsg {
    GetConfig {},
    Provided { address: String },
    TotalProvided {},
    Entitled { address: String },
    Balance {},
}

impl QueryMsg {
    /// Whether answering needs the pool's live balance.
    pub fn needs_balance(&self) -> (r: bool)
        ensures
            r == (self is Entitled || self is Balance),
    {
        match self {
            QueryMsg::Entitled { .. } => true,
            QueryMsg::Balance {} => true,
            _ => false,
        }
    }
}

/// The call a borrower receives together with a loan.
#[derive(Debug, Clone, PartialEq, Eq)]
pub enum LoanMsg {
    ReceiveLoan {},
}

/// The configuration as reported to callers.
#[derive(Debug, Clone, PartialEq, Eq)]
pub struct ConfigResponse {
    pub admin: Option<String>,
    pub fee: u128,
    pub loan_denom: CheckedLoanDenom,
}

/// The answer to a query.
#[derive(Debug, Clone, PartialEq, Eq)]
pub enum QueryAnswer {
    Config(ConfigResponse),
    Amount(u128),
}

/// A message that an operation asks the host to dispatch. The host runs the
/// messages of one operation in order, within the same unit of work.
#[derive(Debug, Clone, PartialEq, Eq)]
pub enum OutboundMsg {
    /// Sends `amount` of the cw20 `token` to `contract`, with a
    /// `LoanMsg::ReceiveLoan` payload.
    Cw20Send { token: String, contract: String, amount: u128 },
    /// Calls `contract` with `LoanMsg::ReceiveLoan`, attaching `amount` of the
    /// native `denom`.
    NativeLoan { contract: String, denom: String, amount: u128 },
    /// Calls the pool at `contract` with an assertion that it holds `amount`.
    AssertBalance { contract: String, amount: u128 },
    /// Transfers `amount` of the cw20 `token` to `recipient`.
    Cw20Transfer { token: String, recipient: String, amount: u128 },
    /// Sends `amount` of the native `denom` to `to_address`.
    BankSend { to_address: String, denom: String, amount: u128 },
}

} // verus!
