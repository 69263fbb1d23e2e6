//! What the quotation source hands over: the assets it can quote and the
//! quotations themselves.

use crate::decimal::Decimal;
use crate::decimal::DecimalView;
use vstd::prelude::*;

verus! {

/// The description of an asset as the quotation source lists it.
#[derive(Debug)]
pub struct Asset {
    pub symbol: String,
    pub name: String,
    pub address: String,
    pub decimals: u8,
    pub blockchain: String,
}

/// The mathematical content of an [`Asset`].
pub struct AssetView {
    pub symbol: Seq<char>,
    pub name: Seq<char>,
    pub address: Seq<char>,
    pub decimals: u8,
    pub blockchain: Seq<char>,
}

impl AssetView {
    /// The identity of the asset: blockchain and symbol.
    pub open spec fn key(self) -> (Seq<char>, Seq<char>) {
        (self.blockchain, self.symbol)
    }
}

impl View for Asset {
    type V = AssetView;

    open spec fn view(&self) -> AssetView {
        AssetView {
            symbol: self.symbol@,
            name: self.name@,
            address: self.address@,
            decimals: self.decimals,
            blockchain: self.blockchain@,
        }
    }
}

impl Clone for Asset {
    fn clone(&self) -> (copy: Self)
        ensures
            copy@ == self@,
    {
        Asset {
            symbol: self.symbol.clone(),
            name: self.name.clone(),
            address: self.address.clone(),
            decimals: self.decimals,
            blockchain: self.blockchain.clone(),
        }
    }
}

/// An asset that the source can quote, with its traded volume.
#[derive(Debug)]
pub struct QuotedAsset {
    pub asset: Asset,
    pub volume: Decimal,
}

/// The mathematical content of a [`QuotedAsset`].
pub struct QuotedAssetView {
    pub asset: AssetView,
    pub volume: DecimalView,
}

impl View for QuotedAsset {
    type V = QuotedAssetView;

    open spec fn view(&self) -> QuotedAssetView {
        QuotedAssetView { asset: self.asset@, volume: self.volume@ }
    }
}

impl Clone for QuotedAsset {
    fn clone(&self) -> (copy: Self)
        ensures
            copy@ == self@,
    {
        QuotedAsset { asset: self.asset.clone(), volume: self.volume.clone() }
    }
}

/// The contents of a list of quotable assets, in order.
pub open spec fn quoted_asset_views(assets: Seq<QuotedAsset>) -> Seq<QuotedAssetView> {
    assets.map_values(|a: QuotedAsset| a@)
}

/// One quotation as the source reports it.
///
/// `time` is the moment of observation in seconds since the Unix epoch. A
/// quotation of a fiat currency has neither address nor blockchain.
#[derive(Debug)]
pub struct Quotation {
    pub symbol: String,
    pub name: String,
    pub address: Option<String>,
    pub blockchain: Option<String>,
    pub price: Decimal,
    pub price_yesterday: Decimal,
    pub volume_yesterday: Decimal,
    pub time: i64,
    pub source: String,
}

/// The mathematical content of a [`Quotation`].
pub struct QuotationView {
    pub symbol: Seq<char>,
    pub name: Seq<char>,
    pub address: Option<Seq<char>>,
    pub blockchain: Option<Seq<char>>,
    pub price: DecimalView,
    pub price_yesterday: DecimalView,
    pub volume_yesterday: DecimalView,
    pub time: i64,
    pub source: Seq<char>,
}

/// The characters of an optional string.
pub open spec fn optional_text(text: Option<String>) -> Option<Seq<char>> {
    match text {
        Some(t) => Some(t@),
        None => None,
    }
}

impl View for Quotation {
    type V = QuotationView;

    open spec fn view(&self) -> QuotationView {
        QuotationView {
            symbol: self.symbol@,
            name: self.name@,
            address: optional_text(self.address),
            blockchain: optional_text(self.blockchain),
            price: self.price@,
            price_yesterday: self.price_yesterday@,
            volume_yesterday: self.volume_yesterday@,
            time: self.time,
            source: self.source@,
        }
    }
}

/// Copies an optional string.
fn clone_optional(text: &Option<String>) -> (copy: Option<String>)
    ensures
        optional_text(copy) == optional_text(*text),
{
    match text {
        Some(t) => Some(t.clone()),
        None => None,
    }
}

impl Clone for Quotation {
    fn clone(&self) -> (copy: Self)
        ensures
            copy@ == self@,
    {
        Quotation {
            symbol: self.symbol.clone(),
            name: self.name.clone(),
            address: clone_optional(&self.address),
            blockchain: clone_optional(&self.blockchain),
            price: self.price.clone(),
            price_yesterday: self.price_yesterday.clone(),
            volume_yesterday: self.volume_yesterday.clone(),
            time: self.time,
            source: self.source.clone(),
        }
    }
}

} // verus!
