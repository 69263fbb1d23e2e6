//! The published snapshot of coin records and the store that holds it.
//!
//! A snapshot is one complete generation of records, at most one per
//! identity. The store holds the current snapshot behind an atomically
//! swapped pointer: readers take one reference and answer from it, a writer
//! installs a whole new snapshot in one step.

use crate::handlers::currency_keys;
use crate::handlers::Currency;
use arc_swap::ArcSwap;
use std::sync::Arc;
use vstd::prelude::*;

verus! {

/// The published record of one asset.
///
/// `supply` and `price` are fixed-point numbers with twelve fractional
/// digits; `last_update_timestamp` counts seconds since the Unix epoch.
#[derive(Debug, PartialEq, Eq)]
pub struct CoinInfo {
    pub symbol: String,
    pub name: String,
    pub blockchain: String,
    pub supply: u128,
    pub last_update_timestamp: u64,
    pub price: u128,
}

/// The mathematical content of a [`CoinInfo`].
pub struct CoinInfoView {
    pub symbol: Seq<char>,
    pub name: Seq<char>,
    pub blockchain: Seq<char>,
    pub supply: u128,
    pub last_update_timestamp: u64,
    pub price: u128,
}

impl CoinInfoView {
    /// The identity under which the record is stored: blockchain and symbol.
    pub open spec fn key(self) -> (Seq<char>, Seq<char>) {
        (self.blockchain, self.symbol)
    }
}

impl View for CoinInfo {
    type V = CoinInfoView;

    open spec fn view(&self) -> CoinInfoView {
        CoinInfoView {
            symbol: self.symbol@,
            name: self.name@,
            blockchain: self.blockchain@,
            supply: self.supply,
            last_update_timestamp: self.last_update_timestamp,
            price: self.price,
        }
    }
}

impl Clone for CoinInfo {
    fn clone(&self) -> (copy: Self)
        ensures
            copy@ == self@,
    {
        CoinInfo {
            symbol: self.symbol.clone(),
            name: self.name.clone(),
            blockchain: self.blockchain.clone(),
            supply: self.supply,
            last_update_timestamp: self.last_update_timestamp,
            price: self.price,
        }
    }
}

impl Default for CoinInfo {
    fn default() -> (record: Self)
        ensures
            record@ == (CoinInfoView {
                symbol: Seq::empty(),
                name: Seq::empty(),
                blockchain: Seq::empty(),
                supply: 0,
                last_update_timestamp: 0,
                price: 0,
            }),
    {
        CoinInfo {
            symbol: String::new(),
            name: String::new(),
            blockchain: String::new(),
            supply: 0,
            last_update_timestamp: 0,
            price: 0,
        }
    }
}

/// The contents of a list of records, in order.
pub open spec fn record_views(records: Seq<CoinInfo>) -> Seq<CoinInfoView> {
    records.map_values(|r: CoinInfo| r@)
}

/// The mapping that a list of records publishes: each record under its own
/// identity, a later record replacing an earlier one of the same identity.
pub open spec fn snapshot_of(records: Seq<CoinInfoView>) -> Map<(Seq<char>, Seq<char>), CoinInfoView>
    decreases records.len(),
{
    if records.len() == 0 {
        Map::empty()
    } else {
        snapshot_of(records.drop_last()).insert(records.last().key(), records.last())
    }
}

/// The records that a snapshot holds for the requested identities, in the
/// order of the request; an identity without a record is passed over.
pub open spec fn lookup_in(
    snapshot: Map<(Seq<char>, Seq<char>), CoinInfoView>,
    keys: Seq<(Seq<char>, Seq<char>)>,
) -> Seq<CoinInfoView>
    decreases keys.len(),
{
    if keys.len() == 0 {
        Seq::empty()
    } else if snapshot.contains_key(keys.last()) {
        lookup_in(snapshot, keys.drop_last()).push(snapshot[keys.last()])
    } else {
        lookup_in(snapshot, keys.drop_last())
    }
}

/// No two records share an identity.
pub open spec fn distinct_keys(records: Seq<CoinInfoView>) -> bool {
    forall|i: int, j: int|
        0 <= i < j < records.len() ==> (#[trigger] records[i]).key() != (#[trigger] records[j]).key()
}

/// A mapping built from records holds exactly the identities of the records.
pub proof fn lemma_snapshot_keys(records: Seq<CoinInfoView>, key: (Seq<char>, Seq<char>))
    ensures
        snapshot_of(records).contains_key(key) <==> exists|i: int|
            0 <= i < records.len() && (#[trigger] records[i]).key() == key,
    decreases records.len(),
{
    if records.len() > 0 {
        let front = records.drop_last();
        lemma_snapshot_keys(front, key);
        if snapshot_of(records).contains_key(key) {
            if records.last().key() == key {
                assert(records[records.len() - 1].key() == key);
            } else {
                let i = choose|i: int| 0 <= i < front.len() && (#[trigger] front[i]).key() == key;
                assert(records[i].key() == key);
            }
        }
        if exists|i: int| 0 <= i < records.len() && (#[trigger] records[i]).key() == key {
            let i = choose|i: int| 0 <= i < records.len() && (#[trigger] records[i]).key() == key;
            if i < front.len() {
                assert(front[i].key() == key);
            }
        }
    }
}

/// Where identities are distinct, the mapping holds each record under its
/// identity.
pub proof fn lemma_snapshot_value(records: Seq<CoinInfoView>, at: int)
    requires
        distinct_keys(records),
        0 <= at < records.len(),
    ensures
        snapshot_of(records).contains_key(records[at].key()),
        snapshot_of(records)[records[at].key()] == records[at],
    decreases records.len(),
{
    let front = records.drop_last();
    if at < front.len() {
        assert(distinct_keys(front)) by {
            assert forall|i: int, j: int| 0 <= i < j < front.len() implies (#[trigger] front[i]).key()
                != (#[trigger] front[j]).key() by {
                assert(front[i] == records[i]);
                assert(front[j] == records[j]);
            }
        }
        lemma_snapshot_value(front, at);
        assert(front[at] == records[at]);
        assert(records[at].key() != records[records.len() - 1].key());
    }
}

/// Replacing a record by one of the same identity is the same as publishing
/// the new record after the old ones.
pub proof fn lemma_snapshot_update(records: Seq<CoinInfoView>, at: int, record: CoinInfoView)
    requires
        distinct_keys(records),
        0 <= at < records.len(),
        records[at].key() == record.key(),
    ensures
        distinct_keys(records.update(at, record)),
        snapshot_of(records.update(at, record)) == snapshot_of(records).insert(
            record.key(),
            record,
        ),
{
    let updated = records.update(at, record);
    assert forall|i: int, j: int| 0 <= i < j < updated.len() implies (#[trigger] updated[i]).key()
        != (#[trigger] updated[j]).key() by {
        assert(updated[i].key() == records[i].key());
        assert(updated[j].key() == records[j].key());
    }
    let left = snapshot_of(updated);
    let right = snapshot_of(records).insert(record.key(), record);
    assert forall|key: (Seq<char>, Seq<char>)| left.contains_key(key) == right.contains_key(
        key,
    ) by {
        lemma_snapshot_keys(updated, key);
        lemma_snapshot_keys(records, key);
        if left.contains_key(key) {
            let i = choose|i: int| 0 <= i < updated.len() && (#[trigger] updated[i]).key() == key;
            assert(records[i].key() == key);
        }
        if right.contains_key(key) {
            if key == record.key() {
                assert(updated[at].key() == key);
            } else {
                let i = choose|i: int|
                    0 <= i < records.len() && (#[trigger] records[i]).key() == key;
                assert(updated[i].key() == key);
            }
        }
    }
    assert forall|key: (Seq<char>, Seq<char>)| left.contains_key(key) implies left[key]
        == right[key] by {
        lemma_snapshot_keys(updated, key);
        let i = choose|i: int| 0 <= i < updated.len() && (#[trigger] updated[i]).key() == key;
        lemma_snapshot_value(updated, i);
        if i != at {
            lemma_snapshot_value(records, i);
            assert(records[i].key() != records[at].key());
        }
    }
    assert(left =~= right);
}

/// Appending a record of a new identity keeps identities distinct.
pub proof fn lemma_distinct_push(records: Seq<CoinInfoView>, record: CoinInfoView)
    requires
        distinct_keys(records),
        forall|i: int| 0 <= i < records.len() ==> (#[trigger] records[i]).key() != record.key(),
    ensures
        distinct_keys(records.push(record)),
        snapshot_of(records.push(record)) == snapshot_of(records).insert(record.key(), record),
{
    assert(records.push(record).drop_last() =~= records);
}

/// Every record of the mapping is stored under its own identity.
pub open spec fn keyed_by_identity(snapshot: Map<(Seq<char>, Seq<char>), CoinInfoView>) -> bool {
    forall|key: (Seq<char>, Seq<char>)|
        snapshot.contains_key(key) ==> (#[trigger] snapshot[key]).key() == key
}

/// A mapping built from records holds each of them under its own identity.
pub proof fn lemma_snapshot_keyed(records: Seq<CoinInfoView>)
    ensures
        keyed_by_identity(snapshot_of(records)),
    decreases records.len(),
{
    if records.len() > 0 {
        lemma_snapshot_keyed(records.drop_last());
    }
}

/// One complete generation of published records, at most one per identity.
pub struct Snapshot {
    records: Vec<CoinInfo>,
}

impl View for Snapshot {
    type V = Map<(Seq<char>, Seq<char>), CoinInfoView>;

    closed spec fn view(&self) -> Map<(Seq<char>, Seq<char>), CoinInfoView> {
        snapshot_of(record_views(self.records@))
    }
}

/// Finds the record stored under the given identity.
fn position(records: &Vec<CoinInfo>, blockchain: &String, symbol: &String) -> (at: Option<usize>)
    ensures
        match at {
            Some(i) => i < records.len() && records@[i as int]@.key() == (blockchain@, symbol@),
            None => forall|i: int|
                0 <= i < records.len() ==> (#[trigger] records@[i])@.key() != (
                    blockchain@,
                    symbol@,
                ),
        },
{
    let mut i: usize = 0;
    while i < records.len()
        invariant
            i <= records.len(),
            forall|j: int|
                0 <= j < i ==> (#[trigger] records@[j])@.key() != (blockchain@, symbol@),
        decreases records.len() - i,
    {
        if records[i].blockchain == *blockchain && records[i].symbol == *symbol {
            return Some(i);
        }
        i += 1;
    }
    None
}

impl Snapshot {
    #[verifier::type_invariant]
    spec fn identities_are_distinct(self) -> bool {
        distinct_keys(record_views(self.records@))
    }

    /// The snapshot without any record.
    pub fn empty() -> (snapshot: Snapshot)
        ensures
            snapshot@ == Map::<(Seq<char>, Seq<char>), CoinInfoView>::empty(),
    {
        let snapshot = Snapshot { records: Vec::new() };
        assert(record_views(snapshot.records@) =~= Seq::empty());
        snapshot
    }

    /// Builds the snapshot that publishes `records`: each record under its
    /// own identity, a later record replacing an earlier one of the same
    /// identity.
    pub fn from_records(records: Vec<CoinInfo>) -> (snapshot: Snapshot)
        ensures
            snapshot@ == snapshot_of(record_views(records@)),
    {
        let ghost all = record_views(records@);
        let mut kept: Vec<CoinInfo> = Vec::new();
        let mut i: usize = 0;
        assert(record_views(kept@) =~= Seq::empty());
        assert(all.take(0) =~= Seq::empty());
        while i < records.len()
            invariant
                i <= records.len(),
                all == record_views(records@),
                distinct_keys(record_views(kept@)),
                snapshot_of(record_views(kept@)) == snapshot_of(all.take(i as int)),
            decreases records.len() - i,
        {
            let record = records[i].clone();
            let ghost before = record_views(kept@);
            proof {
                assert(all.take(i + 1).drop_last() =~= all.take(i as int));
                assert(all.take(i + 1).last() == record@);
            }
            match position(&kept, &record.blockchain, &record.symbol) {
                Some(at) => {
                    proof {
                        lemma_snapshot_update(before, at as int, record@);
                    }
                    kept.set(at, record);
                    assert(record_views(kept@) =~= before.update(at as int, record@));
                },
                None => {
                    proof {
                        assert forall|j: int| 0 <= j < before.len() implies (#[trigger] before[j]).key()
                            != record@.key() by {
                            assert(before[j] == kept@[j]@);
                        }
                        lemma_distinct_push(before, record@);
                    }
                    kept.push(record);
                    assert(record_views(kept@) =~= before.push(record@));
                },
            }
            i += 1;
        }
        assert(all.take(i as int) =~= all);
        Snapshot { records: kept }
    }

    /// The number of records in the snapshot.
    pub fn len(&self) -> (count: usize)
        ensures
            count == self@.dom().len(),
            self@.dom().finite(),
    {
        proof {
            use_type_invariant(self);
            lemma_snapshot_size(record_views(self.records@));
        }
        self.records.len()
    }

    /// Returns the records stored under the requested identities, in the
    /// order of the request. An identity without a record is passed over.
    pub fn lookup(&self, keys: &Vec<Currency>) -> (found: Vec<CoinInfo>)
        ensures
            record_views(found@) == lookup_in(self@, currency_keys(keys@)),
            keyed_by_identity(self@),
    {
        proof {
            use_type_invariant(self);
            lemma_snapshot_keyed(record_views(self.records@));
        }
        let ghost wanted = currency_keys(keys@);
        let ghost stored = record_views(self.records@);
        let mut found: Vec<CoinInfo> = Vec::new();
        let mut i: usize = 0;
        assert(record_views(found@) =~= Seq::empty());
        assert(wanted.take(0) =~= Seq::empty());
        while i < keys.len()
            invariant
                i <= keys.len(),
                wanted == currency_keys(keys@),
                stored == record_views(self.records@),
                distinct_keys(stored),
                record_views(found@) == lookup_in(snapshot_of(stored), wanted.take(i as int)),
            decreases keys.len() - i,
        {
            let ghost before = record_views(found@);
            proof {
                assert(wanted.take(i + 1).drop_last() =~= wanted.take(i as int));
                assert(wanted.take(i + 1).last() == keys@[i as int]@);
                lemma_snapshot_keys(stored, keys@[i as int]@);
            }
            match position(&self.records, &keys[i].blockchain, &keys[i].symbol) {
                Some(at) => {
                    proof {
                        assert(stored[at as int] == self.records@[at as int]@);
                        lemma_snapshot_value(stored, at as int);
                    }
                    found.push(self.records[at].clone());
                    assert(record_views(found@) =~= before.push(stored[at as int]));
                },
                None => {
                    proof {
                        if snapshot_of(stored).contains_key(keys@[i as int]@) {
                            let j = choose|j: int|
                                0 <= j < stored.len() && (#[trigger] stored[j]).key()
                                    == keys@[i as int]@;
                            assert(stored[j] == self.records@[j]@);
                        }
                    }
                },
            }
            i += 1;
        }
        assert(wanted.take(i as int) =~= wanted);
        found
    }
}

/// A mapping built from records of distinct identities has one entry per
/// record.
pub proof fn lemma_snapshot_size(records: Seq<CoinInfoView>)
    requires
        distinct_keys(records),
    ensures
        snapshot_of(records).dom().finite(),
        snapshot_of(records).dom().len() == records.len(),
    decreases records.len(),
{
    if records.len() > 0 {
        let front = records.drop_last();
        assert(distinct_keys(front)) by {
            assert forall|i: int, j: int| 0 <= i < j < front.len() implies (#[trigger] front[i]).key()
                != (#[trigger] front[j]).key() by {
                assert(front[i] == records[i]);
                assert(front[j] == records[j]);
            }
        }
        lemma_snapshot_size(front);
        lemma_snapshot_keys(front, records.last().key());
        if snapshot_of(front).contains_key(records.last().key()) {
            let i = choose|i: int|
                0 <= i < front.len() && (#[trigger] front[i]).key() == records.last().key();
            assert(front[i] == records[i]);
            assert(records[i].key() != records[records.len() - 1].key());
        }
    }
}

/// Looking up no identity finds no record.
pub proof fn lemma_lookup_nothing(snapshot: Map<(Seq<char>, Seq<char>), CoinInfoView>)
    ensures
        lookup_in(snapshot, Seq::empty()) == Seq::<CoinInfoView>::empty(),
{
}

/// An empty snapshot finds no record, whatever is requested.
pub proof fn lemma_lookup_in_empty(keys: Seq<(Seq<char>, Seq<char>)>)
    ensures
        lookup_in(Map::empty(), keys) == Seq::<CoinInfoView>::empty(),
    decreases keys.len(),
{
    if keys.len() > 0 {
        lemma_lookup_in_empty(keys.drop_last());
    }
}

/// Looking up one identity finds its record, or nothing when the snapshot
/// holds none for it.
pub proof fn lemma_lookup_one(
    snapshot: Map<(Seq<char>, Seq<char>), CoinInfoView>,
    key: (Seq<char>, Seq<char>),
)
    ensures
        lookup_in(snapshot, seq![key]) == if snapshot.contains_key(key) {
            seq![snapshot[key]]
        } else {
            Seq::<CoinInfoView>::empty()
        },
{
    assert(seq![key].drop_last() =~= Seq::empty());
    assert(lookup_in(snapshot, Seq::empty()) =~= Seq::<CoinInfoView>::empty());
    assert(Seq::<CoinInfoView>::empty().push(snapshot[key]) =~= seq![snapshot[key]]);
}

/// A lookup answers a request piece by piece: the records found for two
/// requests in a row are those found for the first followed by those found
/// for the second. So the order of the request is kept.
pub proof fn lemma_lookup_concat(
    snapshot: Map<(Seq<char>, Seq<char>), CoinInfoView>,
    first: Seq<(Seq<char>, Seq<char>)>,
    second: Seq<(Seq<char>, Seq<char>)>,
)
    ensures
        lookup_in(snapshot, first + second) == lookup_in(snapshot, first) + lookup_in(
            snapshot,
            second,
        ),
    decreases second.len(),
{
    if second.len() == 0 {
        assert(first + second =~= first);
        assert(lookup_in(snapshot, first) + Seq::<CoinInfoView>::empty() =~= lookup_in(
            snapshot,
            first,
        ));
    } else {
        lemma_lookup_concat(snapshot, first, second.drop_last());
        assert((first + second).drop_last() =~= first + second.drop_last());
        assert((first + second).last() == second.last());
        let front = lookup_in(snapshot, first);
        let back = lookup_in(snapshot, second.drop_last());
        assert((front + back).push(snapshot[second.last()]) =~= front + back.push(
            snapshot[second.last()],
        ));
    }
}

/// Every record that a lookup returns is the one stored under a requested
/// identity, and carries that identity when the snapshot stores each record
/// under its own.
pub proof fn lemma_lookup_members(
    snapshot: Map<(Seq<char>, Seq<char>), CoinInfoView>,
    keys: Seq<(Seq<char>, Seq<char>)>,
    at: int,
)
    requires
        0 <= at < lookup_in(snapshot, keys).len(),
    ensures
        exists|k: int|
            0 <= k < keys.len() && snapshot.contains_key(#[trigger] keys[k]) && lookup_in(
                snapshot,
                keys,
            )[at] == snapshot[keys[k]],
        lookup_in(snapshot, keys).len() <= keys.len(),
    decreases keys.len(),
{
    lemma_lookup_length(snapshot, keys);
    let front = lookup_in(snapshot, keys.drop_last());
    if snapshot.contains_key(keys.last()) && at == front.len() {
        assert(keys[keys.len() - 1] == keys.last());
    } else {
        lemma_lookup_members(snapshot, keys.drop_last(), at);
        let k = choose|k: int|
            0 <= k < keys.drop_last().len() && snapshot.contains_key(
                #[trigger] keys.drop_last()[k],
            ) && front[at] == snapshot[keys.drop_last()[k]];
        assert(keys[k] == keys.drop_last()[k]);
    }
}

/// A lookup returns at most one record per requested identity.
pub proof fn lemma_lookup_length(
    snapshot: Map<(Seq<char>, Seq<char>), CoinInfoView>,
    keys: Seq<(Seq<char>, Seq<char>)>,
)
    ensures
        lookup_in(snapshot, keys).len() <= keys.len(),
    decreases keys.len(),
{
    if keys.len() > 0 {
        lemma_lookup_length(snapshot, keys.drop_last());
    }
}

/// The store of published records.
///
/// It holds the current snapshot behind an atomically swapped pointer, so
/// that any number of readers can look records up while a writer replaces
/// the whole snapshot. Nothing is ever changed in place.
///
/// The pointer is an `arc_swap::ArcSwap`, whose type the verifier cannot be
/// told of, so the verifier sees nothing inside the store: what a store
/// holds is never spoken of in a contract.
#[verifier::external_body]
pub struct CoinInfoStorage {
    currencies_by_blockchain_and_symbol: ArcSwap<Snapshot>,
}

impl CoinInfoStorage {
    /// Makes a store that holds `snapshot`, by `ArcSwap::new`.
    ///
    /// Nothing is claimed of the store.
    #[verifier::external_body]
    fn holding(snapshot: Arc<Snapshot>) -> CoinInfoStorage {
        CoinInfoStorage { currencies_by_blockchain_and_symbol: ArcSwap::new(snapshot) }
    }

    /// Takes a reference to the snapshot that is current at the time of the
    /// call, by `ArcSwapAny::load_full`.
    ///
    /// Nothing is claimed of the snapshot returned: another thread may
    /// have replaced it since the last call.
    #[verifier::external_body]
    fn current(&self) -> Arc<Snapshot> {
        self.currencies_by_blockchain_and_symbol.load_full()
    }

    /// Installs `snapshot` as the current one, by `ArcSwapAny::store`.
    #[verifier::external_body]
    fn install(&self, snapshot: Arc<Snapshot>) {
        self.currencies_by_blockchain_and_symbol.store(snapshot)
    }

    /// A store that is made holding the empty snapshot.
    ///
    /// No clause speaks of what the store holds: it is read and replaced
    /// through shared references, by any thread, so what it holds is no
    /// function of the store as a value.
    pub fn new() -> CoinInfoStorage {
        CoinInfoStorage::holding(Arc::new(Snapshot::empty()))
    }

    /// Returns the records of the current snapshot for the requested
    /// identities, in the order of the request.
    ///
    /// The whole answer is read from one snapshot: the one that was current
    /// when the call took its reference.
    pub fn get_currencies_by_blockchains_and_symbols(
        &self,
        blockchain_and_symbols: Vec<Currency>,
    ) -> (found: Vec<CoinInfo>)
        ensures
            exists|snapshot: Map<(Seq<char>, Seq<char>), CoinInfoView>|
                keyed_by_identity(snapshot) && record_views(found@) == #[trigger] lookup_in(
                    snapshot,
                    currency_keys(blockchain_and_symbols@),
                ),
    {
        let reference = self.current();
        let found = reference.lookup(&blockchain_and_symbols);
        assert(keyed_by_identity((*reference)@) && record_views(found@) == lookup_in(
            (*reference)@,
            currency_keys(blockchain_and_symbols@),
        ));
        found
    }

    /// Replaces the current snapshot by the one that publishes `currencies`,
    /// in one step.
    pub fn replace_currencies_by_symbols(&self, currencies: Vec<CoinInfo>) {
        let map_to_replace_with = Snapshot::from_records(currencies);
        self.install(Arc::new(map_to_replace_with));
    }
}

impl Default for CoinInfoStorage {
    fn default() -> CoinInfoStorage {
        CoinInfoStorage::new()
    }
}

} // verus!
