use crate::denom::{get_only_denom_amount, only_denom_amount_spec, CheckedLoanDenom, Coin};
use crate::error::ContractError;
use crate::ledger::{entitlement, provide_spec, withdraw_spec, ShareLedger};
use crate::math::{checked_multiply_ratio, ratio_floor};
use crate::msg::{ConfigResponse, OutboundMsg, QueryAnswer, QueryMsg};
use crate::state::{Config, Pool, FEE_FRACTIONAL};
use vstd::prelude::*;

verus! {

/// The fee charged on a loan of `amount` at fee rate `fee`, rounded down.
pub open spec fn fee_on(amount: int, fee: int) -> int {
    ratio_floor(amount, fee, FEE_FRACTIONAL as int)
}

/// What the pool must hold once a loan of `amount` taken when it held
/// `available` has been repaid.
pub open spec fn loan_expected(available: int, amount: int, fee: int) -> int {
    available + fee_on(amount, fee)
}

/// Whether `sender` is the admin of `config`.
pub open spec fn is_admin(config: Config, sender: Seq<char>) -> bool {
    match config.admin {
        Some(a) => a@ == sender,
        None => false,
    }
}

/// The transfer that hands a loan of `amount` to `receiver`.
pub open spec fn loan_transfer(denom: CheckedLoanDenom, receiver: String, amount: u128) -> OutboundMsg {
    match denom {
        CheckedLoanDenom::Cw20 { address } => OutboundMsg::Cw20Send {
            token: address,
            contract: receiver,
            amount,
        },
        CheckedLoanDenom::Native { denom } => OutboundMsg::NativeLoan {
            contract: receiver,
            denom,
            amount,
        },
    }
}

/// The messages of a loan: the transfer to the borrower, then the deferred
/// check that the pool at `contract` holds `expected`.
pub open spec fn loan_messages(
    denom: CheckedLoanDenom,
    contract: String,
    receiver: String,
    amount: u128,
    expected: u128,
) -> Seq<OutboundMsg> {
    seq![
        loan_transfer(denom, receiver, amount),
        OutboundMsg::AssertBalance { contract, amount: expected },
    ]
}

/// The transfer that pays a withdrawal of `amount` to `recipient`.
pub open spec fn payout(denom: CheckedLoanDenom, recipient: String, amount: u128) -> OutboundMsg {
    match denom {
        CheckedLoanDenom::Cw20 { address } => OutboundMsg::Cw20Transfer {
            token: address,
            recipient,
            amount,
        },
        CheckedLoanDenom::Native { denom } => OutboundMsg::BankSend {
            to_address: recipient,
            denom,
            amount,
        },
    }
}

/// The verdict of the deferred balance check.
pub open spec fn assert_balance_spec(available: u128, expected: u128) -> Result<(), ContractError> {
    if available == expected {
        Ok(())
    } else {
        Err(ContractError::NotReturned {})
    }
}

/// A deposit whose funds are `provided` out of the live balance `balance`:
/// `Overflow` when the balance cannot hold them, else as the ledger decides
/// against the balance before the deposit.
pub open spec fn deposit_spec(
    pre: ShareLedger,
    post: ShareLedger,
    provider: Seq<char>,
    provided: u128,
    balance: u128,
    r: Result<u128, ContractError>,
) -> bool {
    if balance < provided {
        &&& r == Err::<u128, ContractError>(ContractError::Overflow {})
        &&& post == pre
    } else {
        provide_spec(pre, post, provider, provided as int, balance - provided, r)
    }
}

/// A pool with configuration `admin`, `fee` and `loan_denom`, and no shares.
pub fn instantiate(admin: Option<String>, fee: u128, loan_denom: CheckedLoanDenom) -> (r: Pool)
    ensures
        r.wf(),
        r.config == (Config { admin, fee, loan_denom }),
        r.ledger@ == Map::<Seq<char>, u128>::empty(),
        r.ledger.total == 0,
{
    Pool { config: Config { admin, fee, loan_denom }, ledger: ShareLedger::new() }
}

/// Replaces admin and fee rate, for the admin alone. `Unauthorized`, with the
/// pool unchanged, when `sender` is not the admin or the pool has none.
pub fn execute_update_config(
    pool: &mut Pool,
    sender: &String,
    new_admin: Option<String>,
    new_fee: u128,
) -> (r: Result<(), ContractError>)
    ensures
        final(pool).ledger == old(pool).ledger,
        final(pool).config.loan_denom == old(pool).config.loan_denom,
        is_admin(old(pool).config, sender@) ==> {
            &&& r is Ok
            &&& final(pool).config.admin == new_admin
            &&& final(pool).config.fee == new_fee
        },
        !is_admin(old(pool).config, sender@) ==> {
            &&& r == Err::<(), ContractError>(ContractError::Unauthorized {})
            &&& *final(pool) == *old(pool)
        },
{
    let authorized = match &pool.config.admin {
        Some(a) => *a == *sender,
        None => false,
    };
    if !authorized {
        return Err(ContractError::Unauthorized {});
    }
    pool.config.admin = new_admin;
    pool.config.fee = new_fee;
    Ok(())
}

/// Lends `amount` to `receiver` from the pool at `contract`, which holds
/// `available`. Returns the transfer to the borrower followed by the deferred
/// check that the pool then holds `available` plus the fee on `amount`.
/// `Overflow` when that sum leaves 128 bits. Anyone may borrow.
pub fn execute_loan(
    pool: &Pool,
    contract: String,
    receiver: String,
    amount: u128,
    available: u128,
) -> (r: Result<Vec<OutboundMsg>, ContractError>)
    ensures
        ({
            let expected = loan_expected(available as int, amount as int, pool.config.fee as int);
            if expected <= u128::MAX {
                &&& r is Ok
                &&& r->Ok_0@ == loan_messages(
                    pool.config.loan_denom,
                    contract,
                    receiver,
                    amount,
                    expected as u128,
                )
            } else {
                r == Err::<Vec<OutboundMsg>, ContractError>(ContractError::Overflow {})
            }
        }),
{
    let fee = match checked_multiply_ratio(amount, pool.config.fee, FEE_FRACTIONAL) {
        Some(f) => f,
        None => {
            return Err(ContractError::Overflow {});
        },
    };
    let expected = match available.checked_add(fee) {
        Some(e) => e,
        None => {
            return Err(ContractError::Overflow {});
        },
    };
    let transfer = match &pool.config.loan_denom {
        CheckedLoanDenom::Cw20 { address } => OutboundMsg::Cw20Send {
            token: address.clone(),
            contract: receiver,
            amount,
        },
        CheckedLoanDenom::Native { denom } => OutboundMsg::NativeLoan {
            contract: receiver,
            denom: denom.clone(),
            amount,
        },
    };
    let mut msgs: Vec<OutboundMsg> = Vec::new();
    msgs.push(transfer);
    msgs.push(OutboundMsg::AssertBalance { contract, amount: expected });
    proof {
        assert(msgs@ =~= loan_messages(
            pool.config.loan_denom,
            contract,
            receiver,
            amount,
            expected,
        ));
    }
    Ok(msgs)
}

/// The deferred check of a loan: `NotReturned` unless the pool holds exactly
/// `expected`.
pub fn execute_assert_balance(available: u128, expected: u128) -> (r: Result<(), ContractError>)
    ensures
        r == assert_balance_spec(available, expected),
{
    if available != expected {
        Err(ContractError::NotReturned {})
    } else {
        Ok(())
    }
}

fn provide_from_balance(
    ledger: &mut ShareLedger,
    provider: String,
    provided: u128,
    balance: u128,
) -> (r: Result<u128, ContractError>)
    requires
        old(ledger).wf(),
    ensures
        final(ledger).wf(),
        deposit_spec(*old(ledger), *final(ledger), provider@, provided, balance, r),
{
    let pre_balance = match balance.checked_sub(provided) {
        Some(b) => b,
        None => {
            return Err(ContractError::Overflow {});
        },
    };
    ledger.provide(provider, provided, pre_balance)
}

/// A deposit of native coins `funds` by `sender`; `balance` is the pool's live
/// balance, the deposit included. Returns the shares minted.
/// `Cw20Expected` when the pool lends a cw20 token, `WrongFunds` unless
/// `funds` is one coin of the pool's denomination; otherwise as
/// `deposit_spec` says. The pool is unchanged on every error.
pub fn execute_provide_native(
    pool: &mut Pool,
    sender: String,
    funds: Vec<Coin>,
    balance: u128,
) -> (r: Result<u128, ContractError>)
    requires
        old(pool).wf(),
    ensures
        final(pool).wf(),
        final(pool).config == old(pool).config,
        match old(pool).config.loan_denom {
            CheckedLoanDenom::Cw20 { .. } => {
                &&& r == Err::<u128, ContractError>(ContractError::Cw20Expected {})
                &&& *final(pool) == *old(pool)
            },
            CheckedLoanDenom::Native { denom } => match only_denom_amount_spec(funds@, denom@) {
                None => {
                    &&& r == Err::<u128, ContractError>(ContractError::WrongFunds { denom })
                    &&& *final(pool) == *old(pool)
                },
                Some(provided) => deposit_spec(
                    old(pool).ledger,
                    final(pool).ledger,
                    sender@,
                    provided,
                    balance,
                    r,
                ),
            },
        },
{
    let provided = match &pool.config.loan_denom {
        CheckedLoanDenom::Cw20 { .. } => {
            return Err(ContractError::Cw20Expected {});
        },
        CheckedLoanDenom::Native { denom } => get_only_denom_amount(funds, denom.clone())?,
    };
    provide_from_balance(&mut pool.ledger, sender, provided, balance)
}

/// A deposit of `amount` cw20 tokens on behalf of `sender`, announced by the
/// token contract `token`; `balance` is the pool's live balance, the deposit
/// included. Returns the shares minted. `NativeExpected` when the pool lends a
/// native coin, `Unauthorized` when `token` is not the pool's token;
/// otherwise as `deposit_spec` says. The pool is unchanged on every error.
pub fn execute_provide_cw20(
    pool: &mut Pool,
    token: &String,
    sender: String,
    amount: u128,
    balance: u128,
) -> (r: Result<u128, ContractError>)
    requires
        old(pool).wf(),
    ensures
        final(pool).wf(),
        final(pool).config == old(pool).config,
        match old(pool).config.loan_denom {
            CheckedLoanDenom::Native { .. } => {
                &&& r == Err::<u128, ContractError>(ContractError::NativeExpected {})
                &&& *final(pool) == *old(pool)
            },
            CheckedLoanDenom::Cw20 { address } => if address@ != token@ {
                &&& r == Err::<u128, ContractError>(ContractError::Unauthorized {})
                &&& *final(pool) == *old(pool)
            } else {
                deposit_spec(old(pool).ledger, final(pool).ledger, sender@, amount, balance, r)
            },
        },
{
    let accepted = match &pool.config.loan_denom {
        CheckedLoanDenom::Cw20 { address } => *address == *token,
        CheckedLoanDenom::Native { .. } => {
            return Err(ContractError::NativeExpected {});
        },
    };
    if !accepted {
        return Err(ContractError::Unauthorized {});
    }
    provide_from_balance(&mut pool.ledger, sender, amount, balance)
}

/// Burns every share of `sender` in the pool, which holds `available`, and
/// returns the entitlement with the transfer that pays it. The shares are
/// zeroed before the transfer is handed out. `NoProvisions`, with the pool
/// unchanged, when `sender` holds no shares.
pub fn execute_withdraw(pool: &mut Pool, sender: &String, available: u128) -> (r: Result<
    (u128, OutboundMsg),
    ContractError,
>)
    requires
        old(pool).wf(),
    ensures
        final(pool).wf(),
        final(pool).config == old(pool).config,
        withdraw_spec(
            old(pool).ledger,
            final(pool).ledger,
            sender@,
            available as int,
            match r {
                Ok((e, _)) => Ok(e),
                Err(err) => Err(err),
            },
        ),
        r matches Ok((e, m)) ==> m == payout(old(pool).config.loan_denom, *sender, e),
{
    let entitled = match pool.ledger.withdraw(sender, available) {
        Ok(e) => e,
        Err(err) => {
            return Err(err);
        },
    };
    let msg = match &pool.config.loan_denom {
        CheckedLoanDenom::Cw20 { address } => OutboundMsg::Cw20Transfer {
            token: address.clone(),
            recipient: sender.clone(),
            amount: entitled,
        },
        CheckedLoanDenom::Native { denom } => OutboundMsg::BankSend {
            to_address: sender.clone(),
            denom: denom.clone(),
            amount: entitled,
        },
    };
    Ok((entitled, msg))
}

/// The configuration as reported to callers.
pub fn query_get_config(pool: &Pool) -> (r: ConfigResponse)
    ensures
        r == (ConfigResponse {
            admin: pool.config.admin,
            fee: pool.config.fee,
            loan_denom: pool.config.loan_denom,
        }),
{
    let admin = match &pool.config.admin {
        Some(a) => Some(a.clone()),
        None => None,
    };
    ConfigResponse { admin, fee: pool.config.fee, loan_denom: pool.config.loan_denom.duplicate() }
}

/// The shares of `address`; zero when it never deposited.
pub fn query_provided(pool: &Pool, address: &String) -> (r: u128)
    requires
        pool.wf(),
    ensures
        r == pool.ledger.shares_of(address@),
{
    pool.ledger.provided(address)
}

/// The aggregate share total.
pub fn query_total_provided(pool: &Pool) -> (r: u128)
    ensures
        r == pool.ledger.total,
{
    pool.ledger.total_provided()
}

/// What the shares of `address` redeem for while the pool holds `available`:
/// `available * shares / total`, rounded down; zero without shares.
pub fn query_entitled(pool: &Pool, address: &String, available: u128) -> (r: u128)
    requires
        pool.wf(),
    ensures
        r == entitlement(
            available as int,
            pool.ledger.shares_of(address@) as int,
            pool.ledger.total as int,
        ),
{
    pool.ledger.entitled(address, available)
}

/// Answers `msg`; `available` is the pool's live balance, read only by the
/// questions for which `QueryMsg::needs_balance` holds.
pub fn query(pool: &Pool, msg: &QueryMsg, available: u128) -> (r: QueryAnswer)
    requires
        pool.wf(),
    ensures
        r == match *msg {
            QueryMsg::GetConfig {} => QueryAnswer::Config(
                ConfigResponse {
                    admin: pool.config.admin,
                    fee: pool.config.fee,
                    loan_denom: pool.config.loan_denom,
                },
            ),
            QueryMsg::Provided { address } => QueryAnswer::Amount(
                pool.ledger.shares_of(address@),
            ),
            QueryMsg::TotalProvided {} => QueryAnswer::Amount(pool.ledger.total),
            QueryMsg::Entitled { address } => QueryAnswer::Amount(
                entitlement(
                    available as int,
                    pool.ledger.shares_of(address@) as int,
                    pool.ledger.total as int,
                ) as u128,
            ),
            QueryMsg::Balance {} => QueryAnswer::Amount(available),
        },
{
    match msg {
        QueryMsg::GetConfig {} => QueryAnswer::Config(query_get_config(pool)),
        QueryMsg::Provided { address } => QueryAnswer::Amount(query_provided(pool, address)),
        QueryMsg::TotalProvided {} => QueryAnswer::Amount(query_total_provided(pool)),
        QueryMsg::Entitled { address } => QueryAnswer::Amount(
            query_entitled(pool, address, available),
        ),
        QueryMsg::Balance {} => QueryAnswer::Amount(available),
    }
}

} // verus!

verus! {

/// A loan commits only on exact repayment: the last message of a loan is the
/// deferred balance check, and that check passes on the pool's balance at the
/// end of the unit of work exactly when it equals the balance before the loan
/// plus the fee on the amount lent. The loan itself leaves the pool's state
/// untouched; on any other balance the host discards the unit of work.
pub proof fn lemma_loan_settles_exactly(
    pool: Pool,
    contract: String,
    receiver: String,
    amount: u128,
    available: u128,
    final_balance: u128,
)
    requires
        loan_expected(available as int, amount as int, pool.config.fee as int) <= u128::MAX,
    ensures
        ({
            let expected = loan_expected(available as int, amount as int, pool.config.fee as int);
            let msgs = loan_messages(
                pool.config.loan_denom,
                contract,
                receiver,
                amount,
                expected as u128,
            );
            &&& msgs.len() == 2
            &&& msgs[0] == loan_transfer(pool.config.loan_denom, receiver, amount)
            &&& msgs.last() == OutboundMsg::AssertBalance { contract, amount: expected as u128 }
            &&& (assert_balance_spec(final_balance, expected as u128) is Ok <==> final_balance
                == available + fee_on(amount as int, pool.config.fee as int))
        }),
{
}

} // verus!
