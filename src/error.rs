use vstd::prelude::*;

verus! {

/// Why an operation of the pool was refused.
#[derive(Debug, Clone, PartialEq, Eq)]
pub enum ContractError {
    /// The caller is not the pool's admin, or the pool has none.
    Unauthorized {},
    /// The attached funds are not exactly one coin of the pool's denomination.
    WrongFunds { denom: String },
    /// Native coins were offered to a pool that lends a cw20 token.
    Cw20Expected {},
    /// A cw20 token was offered to a pool that lends a native coin.
    NativeExpected {},
    /// The pool's balance after a loan is not what it was owed.
    NotReturned {},
    /// The caller holds no shares to withdraw.
    NoProvisions {},
    /// An amount or a share count left the range of 128-bit integers.
    Overflow {},
    /// The host rejected an address.
    InvalidAddress { address: String },
}

} // verus!
