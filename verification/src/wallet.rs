//! Wallet-side values: outpoints, unspent outputs, balances and fees.

use vstd::prelude::*;
use vstd::string::StringExecFns;

verus! {

/// A reference to one output of a prior transaction: its id and the output
/// index.
#[derive(Debug, PartialEq, Eq, Clone)]
pub struct Outpoint(pub Vec<u8>, pub u32);

/// An unspent transaction output: transaction id, output index, and value in
/// satoshis.
#[derive(Debug, PartialEq, Eq, Clone)]
pub struct UTXO {
    pub txid: Vec<u8>,
    pub vout: u32,
    pub value: u64,
}

/// Takes a UTXO by value and hands the very same record back: an exclusive
/// producer-to-consumer handoff, with no other behaviour.
pub fn consume_utxo(utxo: UTXO) -> (r: UTXO)
    ensures
        r == utxo,
{
    utxo
}

/// Anything that can report a confirmed balance in satoshis.
pub trait Wallet {
    /// The balance this wallet reports.
    spec fn spec_balance(&self) -> u64;

    /// Returns the wallet's balance.
    fn balance(&self) -> (r: u64)
        ensures
            r == self.spec_balance(),
    ;
}

/// A wallet holding nothing but a confirmed balance.
pub struct TestWallet {
    pub confirmed: u64,
}

impl Wallet for TestWallet {
    open spec fn spec_balance(&self) -> u64 {
        self.confirmed
    }

    fn balance(&self) -> (r: u64) {
        self.confirmed
    }
}

/// Subtracts a fee from a balance, saturating at zero: the balance never
/// underflows and never goes negative.
pub fn apply_fee(balance: &mut u64, fee: u64)
    ensures
        *final(balance) == if *old(balance) >= fee {
            (*old(balance) - fee) as u64
        } else {
            0u64
        },
{
    if *balance >= fee {
        *balance = *balance - fee;
    } else {
        *balance = 0;
    }
}

/// Prefixes a transaction id with a note that it was moved.
pub fn move_txid(txid: String) -> (r: String)
    ensures
        r@ == "Moved txid: "@ + txid@,
{
    let mut s = "Moved txid: ".to_owned();
    s.append(txid.as_str());
    s
}

} // verus!
