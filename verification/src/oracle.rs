//! The records of the oracle as the chain stores them: all text is bytes.

use vstd::prelude::*;

verus! {

/// The identity of an asset on chain: blockchain and symbol as bytes.
#[derive(Debug)]
pub struct AssetId {
    pub blockchain: Vec<u8>,
    pub symbol: Vec<u8>,
}

impl View for AssetId {
    type V = (Seq<u8>, Seq<u8>);

    open spec fn view(&self) -> (Seq<u8>, Seq<u8>) {
        (self.blockchain@, self.symbol@)
    }
}

impl AssetId {
    /// The identity made of the given blockchain and symbol.
    pub fn new(blockchain: Vec<u8>, symbol: Vec<u8>) -> (id: Self)
        ensures
            id@ == (blockchain@, symbol@),
    {
        AssetId { blockchain, symbol }
    }
}

/// The price of an asset, in fixed point with twelve fractional digits.
#[derive(Debug, PartialEq, Eq, Structural)]
pub struct PriceInfo {
    pub value: u128,
}

impl Default for PriceInfo {
    fn default() -> (info: Self)
        ensures
            info.value == 0,
    {
        PriceInfo { value: 0 }
    }
}

/// The record of one asset as the chain stores it.
#[derive(Debug)]
pub struct CoinInfo {
    pub symbol: Vec<u8>,
    pub name: Vec<u8>,
    pub blockchain: Vec<u8>,
    pub supply: u128,
    pub last_update_timestamp: u64,
    pub price: u128,
}

impl CoinInfo {
    /// The price that the record reports.
    pub fn price_info(&self) -> (info: PriceInfo)
        ensures
            info.value == self.price,
    {
        PriceInfo { value: self.price }
    }
}

} // verus!
