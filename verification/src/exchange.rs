use vstd::prelude::*;

verus! {

/// Where a payment stands in its life cycle.
#[derive(Clone, Copy, Debug, PartialEq, Eq, Structural)]
pub enum TransactionStatus {
    Pending,
    Processing,
    Succeeded,
    Failed,
    Cancelled,
}

/// Holdings of one asset, in whole units.
#[derive(Debug)]
pub struct AssetBalance {
    pub asset: String,
    pub free: i64,
    pub locked: i64,
    pub total: i64,
}

/// A stand-in exchange connector that reports a fixed balance while
/// the system stabilises.
pub struct BinanceConnector {
    pub api_key: String,
}

impl BinanceConnector {
    pub fn new(api_key: String) -> (r: BinanceConnector)
        ensures
            r.api_key == api_key,
    {
        BinanceConnector { api_key }
    }

    /// The stand-in balance: 100 units free, none locked.
    pub fn get_balance(&self, asset: &str) -> (r: AssetBalance)
        ensures
            r.asset@ == asset@,
            r.free == 100,
            r.locked == 0,
            r.total == 100,
    {
        AssetBalance { asset: String::from_str(asset), free: 100, locked: 0, total: 100 }
    }
}

} // verus!
