use crate::denom::CheckedLoanDenom;
use crate::ledger::ShareLedger;
use vstd::prelude::*;

verus! {

/// One unit of fee, in the atomic units of the fee rate: a fee rate is a
/// fraction with this denominator.
pub const FEE_FRACTIONAL: u128 = 1_000_000_000_000_000_000;

/// Admin, fee rate and lent asset of a pool.
#[derive(Debug, Clone, PartialEq, Eq)]
pub struct Config {
    /// The one address that may change the configuration; none for good once cleared.
    pub admin: Option<String>,
    /// The fee rate, as a fraction of `FEE_FRACTIONAL`.
    pub fee: u128,
    pub loan_denom: CheckedLoanDenom,
}

/// The persisted state of a pool.
#[derive(Debug, Clone, PartialEq, Eq)]
pub struct Pool {
    pub config: Config,
    pub ledger: ShareLedger,
}

impl Pool {
    /// The share ledger is well formed.
    pub open spec fn wf(&self) -> bool {
        self.ledger.wf()
    }
}

} // verus!
