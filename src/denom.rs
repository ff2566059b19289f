use crate::error::ContractError;
use vstd::prelude::*;

verus! {

/// The asset a pool is asked to lend, as given at instantiation.
#[derive(Debug, Clone, PartialEq, Eq)]
pub enum LoanDenom {
    Cw20 { address: String },
    Native { denom: String },
}

/// The asset a pool lends, once its token address has been accepted.
#[derive(Debug, Clone, PartialEq, Eq)]
pub enum CheckedLoanDenom {
    Cw20 { address: String },
    Native { denom: String },
}

impl CheckedLoanDenom {
    /// An equal copy.
    pub fn duplicate(&self) -> (r: Self)
        ensures
            r == *self,
    {
        match self {
            CheckedLoanDenom::Cw20 { address } => CheckedLoanDenom::Cw20 { address: address.clone() },
            CheckedLoanDenom::Native { denom } => CheckedLoanDenom::Native { denom: denom.clone() },
        }
    }
}

/// An amount of a native coin attached to a call.
#[derive(Debug, Clone, PartialEq, Eq)]
pub struct Coin {
    pub denom: String,
    pub amount: u128,
}

/// The checked form of `d`, given whether the host accepts its token address.
pub open spec fn checked_spec(d: LoanDenom, address_valid: bool) -> Result<
    CheckedLoanDenom,
    ContractError,
> {
    match d {
        LoanDenom::Cw20 { address } => if address_valid {
            Ok(CheckedLoanDenom::Cw20 { address })
        } else {
            Err(ContractError::InvalidAddress { address })
        },
        LoanDenom::Native { denom } => Ok(CheckedLoanDenom::Native { denom }),
    }
}

impl LoanDenom {
    /// The token address that the host must validate, if any.
    pub fn address_to_validate(&self) -> (r: Option<&String>)
        ensures
            match *self {
                LoanDenom::Cw20 { address } => r == Some(&address),
                LoanDenom::Native { .. } => r is None,
            },
    {
        match self {
            LoanDenom::Cw20 { address } => Some(address),
            LoanDenom::Native { .. } => None,
        }
    }

    /// Resolves the descriptor into the checked denomination. `address_valid`
    /// is the host's verdict on the token address; a native denomination needs
    /// none.
    pub fn into_checked(self, address_valid: bool) -> (r: Result<CheckedLoanDenom, ContractError>)
        ensures
            r == checked_spec(self, address_valid),
    {
        match self {
            LoanDenom::Cw20 { address } => {
                if address_valid {
                    Ok(CheckedLoanDenom::Cw20 { address })
                } else {
                    Err(ContractError::InvalidAddress { address })
                }
            },
            LoanDenom::Native { denom } => Ok(CheckedLoanDenom::Native { denom }),
        }
    }
}

/// The amount of `funds` when it is exactly one coin of `denom`.
pub open spec fn only_denom_amount_spec(funds: Seq<Coin>, denom: Seq<char>) -> Option<u128> {
    if funds.len() == 1 && funds[0].denom@ == denom {
        Some(funds[0].amount)
    } else {
        None
    }
}

/// The amount of the one coin attached to a call; `WrongFunds` unless exactly
/// one coin is attached and it is of `denom`.
pub fn get_only_denom_amount(funds: Vec<Coin>, denom: String) -> (r: Result<u128, ContractError>)
    ensures
        match only_denom_amount_spec(funds@, denom@) {
            Some(a) => r == Ok::<u128, ContractError>(a),
            None => r == Err::<u128, ContractError>(ContractError::WrongFunds { denom }),
        },
{
    if funds.len() != 1 {
        return Err(ContractError::WrongFunds { denom });
    }
    if funds[0].denom != denom {
        return Err(ContractError::WrongFunds { denom });
    }
    Ok(funds[0].amount)
}

} // verus!
