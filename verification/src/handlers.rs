//! The request type of the lookup endpoint.

use vstd::prelude::*;

verus! {

/// The identity of one requested currency: the blockchain it lives on and
/// its symbol. Both are compared exactly, with no change of case.
#[derive(Debug)]
pub struct Currency {
    pub blockchain: String,
    pub symbol: String,
}

impl View for Currency {
    type V = (Seq<char>, Seq<char>);

    open spec fn view(&self) -> (Seq<char>, Seq<char>) {
        (self.blockchain@, self.symbol@)
    }
}

impl Clone for Currency {
    fn clone(&self) -> (copy: Self)
        ensures
            copy@ == self@,
    {
        Currency { blockchain: self.blockchain.clone(), symbol: self.symbol.clone() }
    }
}

/// The identities that a list of requested currencies names, in order.
pub open spec fn currency_keys(currencies: Seq<Currency>) -> Seq<(Seq<char>, Seq<char>)> {
    currencies.map_values(|c: Currency| c@)
}

} // verus!
