use std::collections::HashMap;

use cosmwasm_std::Decimal;
use flash_loan::{
    execute_assert_balance, execute_loan, execute_provide_cw20, execute_provide_native,
    execute_withdraw, instantiate, query_entitled, query_provided, CheckedLoanDenom, Coin,
    ContractError, LoanDenom, OutboundMsg, Pool, ReceiverConfig,
};

const CREATOR_ADDR: &str = "creator";
const POOL: &str = "flash-loan";
const RECEIVER: &str = "receiver";
const TOKEN: &str = "floob-token";
const DENOM: &str = "ujuno";

#[derive(Debug)]
enum HostError {
    Contract(ContractError),
    Bank(String),
}

impl From<ContractError> for HostError {
    fn from(e: ContractError) -> Self {
        HostError::Contract(e)
    }
}

/// A test host: one asset, the pool, one borrower, and all-or-nothing units
/// of work that run the messages an operation returns, in order.
#[derive(Clone)]
struct Host {
    pool: Pool,
    balances: HashMap<String, u128>,
    receiver: ReceiverConfig,
}

fn fee(percent: u64) -> u128 {
    Decimal::percent(percent).atomics().u128()
}

impl Host {
    fn new(cw20: bool, fee_percent: u64, receiver_return: u128) -> Host {
        let denom = if cw20 {
            LoanDenom::Cw20 { address: TOKEN.to_string() }
        } else {
            LoanDenom::Native { denom: DENOM.to_string() }
        };
        let pool = instantiate(
            Some(CREATOR_ADDR.to_string()),
            fee(fee_percent),
            denom.into_checked(true).unwrap(),
        );
        Host {
            pool,
            balances: HashMap::new(),
            receiver: ReceiverConfig::instantiate(receiver_return, DENOM.to_string()),
        }
    }

    fn is_cw20(&self) -> bool {
        matches!(self.pool.config.loan_denom, CheckedLoanDenom::Cw20 { .. })
    }

    fn balance(&self, who: &str) -> u128 {
        *self.balances.get(who).unwrap_or(&0)
    }

    fn mint(&mut self, who: &str, amount: u128) {
        *self.balances.entry(who.to_string()).or_insert(0) += amount;
    }

    fn transfer(&mut self, from: &str, to: &str, amount: u128) -> Result<(), HostError> {
        let held = self.balance(from);
        if held < amount {
            return Err(HostError::Bank(format!("{} holds {} < {}", from, held, amount)));
        }
        self.balances.insert(from.to_string(), held - amount);
        self.mint(to, amount);
        Ok(())
    }

    fn dispatch(&mut self, from: &str, msg: OutboundMsg) -> Result<(), HostError> {
        match msg {
            OutboundMsg::Cw20Send { token, contract, amount } => {
                self.transfer(from, &contract, amount)?;
                let reply = self.receiver.execute_receive_cw20_loan(token, from.to_string());
                self.dispatch(&contract, reply)
            },
            OutboundMsg::NativeLoan { contract, amount, .. } => {
                self.transfer(from, &contract, amount)?;
                let reply = self.receiver.execute_receive_loan(from.to_string());
                self.dispatch(&contract, reply)
            },
            OutboundMsg::AssertBalance { amount, .. } => {
                Ok(execute_assert_balance(self.balance(POOL), amount)?)
            },
            OutboundMsg::Cw20Transfer { recipient, amount, .. } => {
                self.transfer(from, &recipient, amount)
            },
            OutboundMsg::BankSend { to_address, amount, .. } => {
                self.transfer(from, &to_address, amount)
            },
        }
    }

    fn atomically<T>(
        &mut self,
        f: impl FnOnce(&mut Host) -> Result<T, HostError>,
    ) -> Result<T, HostError> {
        let snapshot = self.clone();
        let r = f(self);
        if r.is_err() {
            *self = snapshot;
        }
        r
    }

    fn loan(&mut self, amount: u128) -> Result<(), HostError> {
        self.atomically(|h| {
            let msgs = execute_loan(
                &h.pool,
                POOL.to_string(),
                RECEIVER.to_string(),
                amount,
                h.balance(POOL),
            )?;
            for m in msgs {
                h.dispatch(POOL, m)?;
            }
            Ok(())
        })
    }

    fn provide(&mut self, who: &str, amount: u128) -> Result<u128, HostError> {
        self.atomically(|h| {
            h.transfer(who, POOL, amount)?;
            let balance = h.balance(POOL);
            if h.is_cw20() {
                Ok(execute_provide_cw20(
                    &mut h.pool,
                    &TOKEN.to_string(),
                    who.to_string(),
                    amount,
                    balance,
                )?)
            } else {
                let funds = vec![Coin { denom: DENOM.to_string(), amount }];
                Ok(execute_provide_native(&mut h.pool, who.to_string(), funds, balance)?)
            }
        })
    }

    fn withdraw(&mut self, who: &str) -> Result<u128, HostError> {
        self.atomically(|h| {
            let available = h.balance(POOL);
            let (entitled, msg) = execute_withdraw(&mut h.pool, &who.to_string(), available)?;
            h.dispatch(POOL, msg)?;
            Ok(entitled)
        })
    }

    fn provided(&self, who: &str) -> u128 {
        query_provided(&self.pool, &who.to_string())
    }

    fn entitled(&self, who: &str) -> u128 {
        query_entitled(&self.pool, &who.to_string(), self.balance(POOL))
    }
}

fn is_contract_error(r: Result<impl std::fmt::Debug, HostError>, want: ContractError) -> bool {
    matches!(r, Err(HostError::Contract(e)) if e == want)
}

// cw20 pool set up with `flash_balance` in the pool and `receiver_balance`
// with the borrower.
fn cw20_setup(
    flash_balance: u128,
    receiver_balance: u128,
    receiver_return: u128,
    fee_percent: u64,
) -> Host {
    let mut host = Host::new(true, fee_percent, receiver_return);
    host.mint(POOL, flash_balance);
    host.mint(RECEIVER, receiver_balance);
    host
}

#[test]
fn cw20_tests_test_simple_loan() {
    let mut host = cw20_setup(100, 1, 101, 1);
    host.loan(100).unwrap();
}

#[test]
fn test_simple_loan_no_return() {
    let mut host = cw20_setup(100, 1, 100, 1);
    let r = host.loan(100);
    assert!(is_contract_error(r, ContractError::NotReturned {}));
}

#[test]
fn cw20_tests_test_provider_rewards() {
    let mut host = cw20_setup(0, 100, 200, 100);
    for i in 0..10 {
        let address = format!("address_{}", i);
        host.mint(&address, 10);
        host.provide(&address, 10).unwrap();
        assert_eq!(host.provided(&address), 10);
    }
    host.loan(100).unwrap();
    for i in 0..10 {
        let address = format!("address_{}", i);
        host.withdraw(&address).unwrap();
        assert_eq!(host.balance(&address), 20);
    }
}

#[test]
fn cw20_tests_test_withdraw_no_provision() {
    let mut host = cw20_setup(100, 1, 100, 1);
    let r = host.withdraw(CREATOR_ADDR);
    assert!(is_contract_error(r, ContractError::NoProvisions {}));
}

#[test]
fn cw20_tests_test_rewards_drain() {
    let mut host = cw20_setup(200, 0, 0, 0);
    host.mint("first", 100);
    host.mint("second", 100);
    host.provide("first", 100).unwrap();
    host.provide("second", 100).unwrap();
    assert_eq!(host.provided("first"), 100);
    assert_eq!(host.provided("second"), 33);

    host.withdraw("first").unwrap();
    assert_eq!(host.balance("first"), 300);

    host.provide("first", 300).unwrap();
    host.withdraw("first").unwrap();
    assert_eq!(host.balance("first"), 300);

    host.withdraw("second").unwrap();
    assert_eq!(host.balance("second"), 100);
}

#[test]
fn tests_test_simple_loan() {
    let mut host = Host::new(false, 1, 101);
    host.mint(RECEIVER, 1);
    host.mint(POOL, 100);
    host.loan(100).unwrap();
    assert_eq!(host.balance(POOL), 101);
}

#[test]
fn test_failed_loan() {
    let mut host = Host::new(false, 1, 10);
    host.mint(POOL, 100);
    let r = host.loan(100);
    assert!(r.is_err());
    assert_eq!(host.balance(RECEIVER), 0);
    assert_eq!(host.balance(POOL), 100);
}

#[test]
fn tests_test_provider_rewards() {
    let mut host = Host::new(false, 100, 200);
    host.mint(RECEIVER, 200);
    for i in 0..10 {
        let address = format!("address_{}", i);
        host.mint(&address, 10);
        host.provide(&address, 10).unwrap();
    }
    host.loan(100).unwrap();
    for i in 0..10 {
        let address = format!("address_{}", i);
        host.withdraw(&address).unwrap();
        assert_eq!(host.balance(&address), 20);
    }
}

#[test]
fn tests_test_withdraw_no_provision() {
    let mut host = Host::new(false, 100, 0);
    host.mint("first", 100);
    host.provide("first", 100).unwrap();
    let r = host.withdraw("second");
    assert!(is_contract_error(r, ContractError::NoProvisions {}));
}

#[test]
fn test_withdraw_rounding() {
    let mut host = Host::new(false, 100, 0);
    host.mint("first", 100);
    host.provide("first", 100).unwrap();
    host.mint("second", 101);
    host.provide("second", 101).unwrap();
    host.mint(POOL, 1);

    host.withdraw("second").unwrap();
    assert_eq!(host.balance("second"), 101);

    host.withdraw("first").unwrap();
    assert_eq!(host.balance("first"), 101);
}

#[test]
fn test_adversarial_withdraw() {
    let mut host = Host::new(false, 100, 0);
    host.mint("first", 100);
    host.provide("first", 100).unwrap();
    host.mint("second", 101);
    host.provide("second", 101).unwrap();
    host.mint(POOL, 2);

    host.withdraw("second").unwrap();
    assert_eq!(host.balance("second"), 102);

    host.provide("second", 102).unwrap();
    assert_eq!(host.entitled("second"), 101);
}

#[test]
fn tests_test_rewards_drain() {
    let mut host = Host::new(false, 100, 0);
    host.mint("first", 100);
    host.provide("first", 100).unwrap();
    host.mint("second", 100);
    host.provide("second", 100).unwrap();
    host.mint(POOL, 200);

    host.withdraw("first").unwrap();
    assert_eq!(host.balance("first"), 200);

    host.provide("first", 200).unwrap();
    host.withdraw("first").unwrap();
    assert_eq!(host.balance("first"), 200);
}

#[test]
fn failed_loan_leaves_ledger_and_balances_unchanged() {
    let mut host = Host::new(false, 1, 100);
    host.mint("first", 50);
    host.provide("first", 50).unwrap();
    host.mint(POOL, 50);
    let before = host.pool.clone();
    let r = host.loan(100);
    assert!(is_contract_error(r, ContractError::NotReturned {}));
    assert_eq!(host.pool, before);
    assert_eq!(host.balance(POOL), 100);
    assert_eq!(host.balance(RECEIVER), 0);
}

#[test]
fn drain_resistance_with_prefunded_pool() {
    let mut host = Host::new(false, 0, 0);
    host.mint(POOL, 200);
    host.mint("a", 100);
    host.mint("b", 100);
    assert_eq!(host.provide("a", 100).unwrap(), 100);
    assert_eq!(host.provide("b", 100).unwrap(), 33);
    assert_eq!(host.withdraw("a").unwrap(), 300);
    assert_eq!(host.withdraw("b").unwrap(), 100);
    assert_eq!(host.balance(POOL), 0);
    // Depositing the payouts again creates no claim beyond the deposit.
    host.provide("a", 300).unwrap();
    host.provide("b", 100).unwrap();
    assert_eq!(host.entitled("a"), 300);
    assert_eq!(host.entitled("b"), 100);
}
