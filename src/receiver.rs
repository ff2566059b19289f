use crate::msg::OutboundMsg;
use vstd::prelude::*;

verus! {

/// A borrower that answers every loan by sending back a fixed amount.
#[derive(Debug, Clone, PartialEq, Eq)]
pub struct ReceiverConfig {
    pub amount: u128,
    pub denom: String,
}

impl ReceiverConfig {
    /// A borrower that pays back `amount` of `denom`.
    pub fn instantiate(amount: u128, denom: String) -> (r: Self)
        ensures
            r == (ReceiverConfig { amount, denom }),
    {
        ReceiverConfig { amount, denom }
    }

    /// Changes what the borrower pays back.
    pub fn execute_update(&mut self, amount: u128, denom: String)
        ensures
            *final(self) == (ReceiverConfig { amount, denom }),
    {
        self.amount = amount;
        self.denom = denom;
    }

    /// The repayment of a native loan received from the pool `sender`.
    pub fn execute_receive_loan(&self, sender: String) -> (r: OutboundMsg)
        ensures
            r == (OutboundMsg::BankSend {
                to_address: sender,
                denom: self.denom,
                amount: self.amount,
            }),
    {
        OutboundMsg::BankSend { to_address: sender, denom: self.denom.clone(), amount: self.amount }
    }

    /// The repayment of a cw20 loan of `token` received from the pool `sender`.
    pub fn execute_receive_cw20_loan(&self, token: String, sender: String) -> (r: OutboundMsg)
        ensures
            r == (OutboundMsg::Cw20Transfer { token, recipient: sender, amount: self.amount }),
    {
        OutboundMsg::Cw20Transfer { token, recipient: sender, amount: self.amount }
    }
}

} // verus!
