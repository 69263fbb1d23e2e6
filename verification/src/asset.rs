//! Asset identities and the set of supported assets.

use vstd::prelude::*;

verus! {

/// The identity of an asset: the blockchain it lives on and its symbol.
///
/// Two identities are the same when both parts are equal character by
/// character; case is not folded.
#[derive(Debug, PartialEq, Eq, Hash)]
pub struct AssetSpecifier {
    pub blockchain: String,
    pub symbol: String,
}

impl View for AssetSpecifier {
    type V = (Seq<char>, Seq<char>);

    open spec fn view(&self) -> (Seq<char>, Seq<char>) {
        (self.blockchain@, self.symbol@)
    }
}

impl Clone for AssetSpecifier {
    fn clone(&self) -> (copy: Self)
        ensures
            copy@ == self@,
    {
        AssetSpecifier { blockchain: self.blockchain.clone(), symbol: self.symbol.clone() }
    }
}

/// The identities of a list of assets, in order.
pub open spec fn asset_keys(assets: Seq<AssetSpecifier>) -> Seq<(Seq<char>, Seq<char>)> {
    assets.map_values(|a: AssetSpecifier| a@)
}

/// No identity occurs twice.
pub open spec fn no_duplicates(keys: Seq<(Seq<char>, Seq<char>)>) -> bool {
    forall|i: int, j: int| 0 <= i < j < keys.len() ==> keys[i] != keys[j]
}

/// A set of asset identities that remembers the order in which its members
/// were added.
pub struct AssetSet {
    assets: Vec<AssetSpecifier>,
}

impl View for AssetSet {
    type V = Seq<(Seq<char>, Seq<char>)>;

    closed spec fn view(&self) -> Seq<(Seq<char>, Seq<char>)> {
        asset_keys(self.assets@)
    }
}

impl AssetSet {
    #[verifier::type_invariant]
    spec fn members_are_distinct(self) -> bool {
        no_duplicates(asset_keys(self.assets@))
    }

    /// The set without members.
    pub fn new() -> (set: AssetSet)
        ensures
            set@ == Seq::<(Seq<char>, Seq<char>)>::empty(),
    {
        let set = AssetSet { assets: Vec::new() };
        assert(asset_keys(set.assets@) =~= Seq::empty());
        set
    }

    /// The number of members, which are pairwise distinct.
    pub fn len(&self) -> (count: usize)
        ensures
            count == self@.len(),
            no_duplicates(self@),
    {
        proof {
            use_type_invariant(self);
        }
        self.assets.len()
    }

    /// Whether `asset` is a member, by exact match of blockchain and symbol.
    pub fn contains(&self, asset: &AssetSpecifier) -> (found: bool)
        ensures
            found == self@.contains(asset@),
    {
        let mut i: usize = 0;
        while i < self.assets.len()
            invariant
                i <= self.assets.len(),
                forall|j: int| 0 <= j < i ==> asset_keys(self.assets@)[j] != asset@,
            decreases self.assets.len() - i,
        {
            if self.assets[i].blockchain == asset.blockchain && self.assets[i].symbol
                == asset.symbol {
                assert(asset_keys(self.assets@)[i as int] == asset@);
                return true;
            }
            i += 1;
        }
        false
    }

    /// Adds `asset` unless it is a member already, and says whether it was
    /// added.
    pub fn insert(&mut self, asset: AssetSpecifier) -> (added: bool)
        ensures
            added == !old(self)@.contains(asset@),
            final(self)@ == if added {
                old(self)@.push(asset@)
            } else {
                old(self)@
            },
    {
        proof {
            use_type_invariant(&*self);
        }
        if self.contains(&asset) {
            return false;
        }
        let mut taken = AssetSet::new();
        std::mem::swap(self, &mut taken);
        let mut assets = taken.assets;
        let ghost before = asset_keys(assets@);
        assets.push(asset);
        assert(asset_keys(assets@) =~= before.push(asset@));
        *self = AssetSet { assets };
        true
    }

    /// The member at place `index` in the order of insertion.
    pub fn get(&self, index: usize) -> (asset: &AssetSpecifier)
        requires
            index < self@.len(),
        ensures
            asset@ == self@[index as int],
    {
        &self.assets[index]
    }

}

impl Clone for AssetSet {
    fn clone(&self) -> (copy: Self)
        ensures
            copy@ == self@,
    {
        proof {
            use_type_invariant(self);
        }
        let mut assets: Vec<AssetSpecifier> = Vec::new();
        let mut i: usize = 0;
        while i < self.assets.len()
            invariant
                i <= self.assets.len(),
                asset_keys(assets@) == asset_keys(self.assets@).take(i as int),
            decreases self.assets.len() - i,
        {
            let ghost before = asset_keys(assets@);
            let member = self.assets[i].clone();
            assets.push(member);
            assert(asset_keys(assets@) =~= before.push(member@));
            assert(asset_keys(self.assets@).take(i + 1) =~= asset_keys(self.assets@).take(
                i as int,
            ).push(self.assets@[i as int]@));
            i += 1;
        }
        assert(asset_keys(self.assets@).take(i as int) =~= asset_keys(self.assets@));
        AssetSet { assets }
    }
}

/// Whether an asset is in scope: every asset is when no set is configured,
/// else exactly the members of the set.
pub open spec fn selects(
    supported: Option<Seq<(Seq<char>, Seq<char>)>>,
    asset: (Seq<char>, Seq<char>),
) -> bool {
    match supported {
        None => true,
        Some(members) => members.contains(asset),
    }
}

/// The configured set as a sequence of identities, if one is configured.
pub open spec fn supported_keys(supported: Option<AssetSet>) -> Option<Seq<(Seq<char>, Seq<char>)>> {
    match supported {
        None => None,
        Some(set) => Some(set@),
    }
}

/// Decides whether a discovered asset is in scope.
///
/// Without a configured set every asset is selected. With one, an asset is
/// selected exactly when the set holds its identity.
pub fn is_selected(asset: &AssetSpecifier, supported: &Option<AssetSet>) -> (selected: bool)
    ensures
        selected == selects(supported_keys(*supported), asset@),
{
    match supported {
        None => true,
        Some(set) => set.contains(asset),
    }
}

} // verus!
