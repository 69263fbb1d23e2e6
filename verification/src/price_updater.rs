//! One round of price collection.
//!
//! A round asks the quotation source which assets it can quote, fetches a
//! quotation for every asset in scope, one after the other with a pause in
//! between, then fetches the configured fiat currencies, and publishes all
//! records it could build as one batch. The source is reached over the
//! network, so the round is written as a state machine: it names the next
//! action, the caller performs it and reports what came back.

use crate::asset::is_selected;
use crate::asset::selects;
use crate::asset::supported_keys;
use crate::asset::AssetSet;
use crate::asset::AssetSpecifier;
use crate::decimal::convert_decimal_to_u128;
use crate::decimal::ConvertingError;
use crate::decimal::Decimal;
use crate::decimal::DecimalView;
use crate::dia::quoted_asset_views;
use crate::dia::Asset;
use crate::dia::AssetView;
use crate::dia::Quotation;
use crate::dia::QuotationView;
use crate::dia::QuotedAsset;
use crate::dia::QuotedAssetView;
use crate::storage::record_views;
use crate::storage::CoinInfo;
use crate::storage::CoinInfoView;
use vstd::prelude::*;

verus! {

/// The blockchain tag of fiat currencies.
pub open spec fn fiat_tag() -> Seq<char> {
    "FIAT"@
}

/// The distance of a moment from the Unix epoch in seconds, whatever its
/// direction.
pub open spec fn seconds_from_epoch(time: i64) -> u64 {
    if time >= 0 {
        time as u64
    } else {
        (-(time as int)) as u64
    }
}

/// The record that a quotation is published as, or the reason why its price
/// or its volume cannot be converted.
///
/// The price is converted first. A quotation without a blockchain is one of
/// a fiat currency.
pub open spec fn coin_info_of(quotation: QuotationView) -> Result<CoinInfoView, ConvertingError> {
    match quotation.price.normalized() {
        Err(e) => Err(e),
        Ok(price) => match quotation.volume_yesterday.normalized() {
            Err(e) => Err(e),
            Ok(supply) => Ok(
                CoinInfoView {
                    symbol: quotation.symbol,
                    name: quotation.name,
                    blockchain: match quotation.blockchain {
                        Some(tag) => tag,
                        None => fiat_tag(),
                    },
                    supply,
                    last_update_timestamp: seconds_from_epoch(quotation.time),
                    price,
                },
            ),
        },
    }
}

/// Computes the distance of a moment from the Unix epoch.
fn unsigned_seconds(time: i64) -> (seconds: u64)
    ensures
        seconds == seconds_from_epoch(time),
{
    if time >= 0 {
        time as u64
    } else if time == i64::MIN {
        9_223_372_036_854_775_808u64
    } else {
        (-time) as u64
    }
}

/// Builds the published record of a quotation.
///
/// Price and volume are converted to fixed point with twelve fractional
/// digits; the first that cannot be converted gives the error.
pub fn convert_to_coin_info(value: Quotation) -> (result: Result<CoinInfo, ConvertingError>)
    ensures
        match result {
            Ok(info) => coin_info_of(value@) == Ok::<CoinInfoView, ConvertingError>(info@),
            Err(e) => coin_info_of(value@) == Err::<CoinInfoView, ConvertingError>(e),
        },
{
    let price = match convert_decimal_to_u128(&value.price) {
        Ok(p) => p,
        Err(e) => {
            return Err(e);
        },
    };
    let supply = match convert_decimal_to_u128(&value.volume_yesterday) {
        Ok(s) => s,
        Err(e) => {
            return Err(e);
        },
    };
    let last_update_timestamp = unsigned_seconds(value.time);
    let blockchain = match value.blockchain {
        Some(tag) => tag,
        None => "FIAT".to_owned(),
    };
    Ok(
        CoinInfo {
            name: value.name,
            symbol: value.symbol,
            blockchain,
            price,
            last_update_timestamp,
            supply,
        },
    )
}

/// What the caller of a round has to do next.
#[derive(Debug)]
pub enum UpdateAction {
    /// Ask the source for the assets it can quote.
    Discover,
    /// Ask the source for a quotation of this asset.
    Quote(QuotedAsset),
    /// Wait for the pause between two requests.
    Pace,
    /// Replace the published snapshot by these records; the round is over.
    Publish(Vec<CoinInfo>),
    /// Leave the published snapshot as it is; the round is over.
    Stop,
}

/// The mathematical content of an [`UpdateAction`].
pub enum UpdateActionView {
    Discover,
    Quote(QuotedAssetView),
    Pace,
    Publish(Seq<CoinInfoView>),
    Stop,
}

impl View for UpdateAction {
    type V = UpdateActionView;

    open spec fn view(&self) -> UpdateActionView {
        match *self {
            UpdateAction::Discover => UpdateActionView::Discover,
            UpdateAction::Quote(asset) => UpdateActionView::Quote(asset@),
            UpdateAction::Pace => UpdateActionView::Pace,
            UpdateAction::Publish(records) => UpdateActionView::Publish(record_views(records@)),
            UpdateAction::Stop => UpdateActionView::Stop,
        }
    }
}

/// What came back from the action that the round asked for.
#[derive(Debug)]
pub enum UpdateEvent {
    /// The source listed its assets, or failed to.
    Discovered(Option<Vec<QuotedAsset>>),
    /// The source gave a quotation, or failed to.
    Quoted(Option<Quotation>),
    /// The pause is over.
    Paced,
}

/// The mathematical content of an [`UpdateEvent`].
pub enum UpdateEventView {
    Discovered(Option<Seq<QuotedAssetView>>),
    Quoted(Option<QuotationView>),
    Paced,
}

impl View for UpdateEvent {
    type V = UpdateEventView;

    open spec fn view(&self) -> UpdateEventView {
        match *self {
            UpdateEvent::Discovered(Some(assets)) => UpdateEventView::Discovered(
                Some(quoted_asset_views(assets@)),
            ),
            UpdateEvent::Discovered(None) => UpdateEventView::Discovered(None),
            UpdateEvent::Quoted(Some(quotation)) => UpdateEventView::Quoted(Some(quotation@)),
            UpdateEvent::Quoted(None) => UpdateEventView::Quoted(None),
            UpdateEvent::Paced => UpdateEventView::Paced,
        }
    }
}

/// Where a round stands.
#[derive(Debug, Clone, Copy, PartialEq, Eq, Structural)]
pub enum UpdatePhase {
    /// The list of quotable assets has been asked for.
    AwaitingDiscovery,
    /// A quotation of a listed asset has been asked for.
    AwaitingQuote,
    /// The pause after a request for a listed asset is running.
    AwaitingPace,
    /// A quotation of a configured fiat currency has been asked for.
    AwaitingFiatQuote,
    /// The round is over.
    Finished,
}

/// The state of a round as the contracts see it.
pub struct PriceUpdateView {
    /// The configured set of supported assets, if there is one.
    pub supported: Option<Seq<(Seq<char>, Seq<char>)>>,
    pub phase: UpdatePhase,
    /// The assets that the source listed.
    pub discovered: Seq<QuotedAssetView>,
    /// The place of the asset in work: in `discovered`, or among the
    /// supported assets while fiat currencies are fetched.
    pub position: int,
    /// The records built so far.
    pub batch: Seq<CoinInfoView>,
}

/// The place of the first asset in scope at or after `from`, or the length
/// of the list when there is none.
pub open spec fn next_selected(
    supported: Option<Seq<(Seq<char>, Seq<char>)>>,
    discovered: Seq<QuotedAssetView>,
    from: int,
) -> int
    decreases discovered.len() - from,
{
    if from < 0 || from >= discovered.len() {
        discovered.len() as int
    } else if selects(supported, discovered[from].asset.key()) {
        from
    } else {
        next_selected(supported, discovered, from + 1)
    }
}

/// The place of the first fiat currency at or after `from`, or the length of
/// the list when there is none.
pub open spec fn next_fiat(members: Seq<(Seq<char>, Seq<char>)>, from: int) -> int
    decreases members.len() - from,
{
    if from < 0 || from >= members.len() {
        members.len() as int
    } else if members[from].0 == fiat_tag() {
        from
    } else {
        next_fiat(members, from + 1)
    }
}

/// The request that stands for a configured fiat currency: its identity and
/// nothing else.
pub open spec fn fiat_request(key: (Seq<char>, Seq<char>)) -> QuotedAssetView {
    QuotedAssetView {
        asset: AssetView {
            symbol: key.1,
            name: Seq::empty(),
            address: Seq::empty(),
            decimals: 0,
            blockchain: key.0,
        },
        volume: DecimalView { negative: false, integer: seq![0u8], fraction: Seq::empty() },
    }
}

/// The batch after the answer to a request for a quotation: one record
/// more when a quotation came and could be converted, else the same.
pub open spec fn with_quotation(
    batch: Seq<CoinInfoView>,
    quoted: Option<QuotationView>,
) -> Seq<CoinInfoView> {
    match quoted {
        Some(quotation) => match coin_info_of(quotation) {
            Ok(info) => batch.push(info),
            Err(_) => batch,
        },
        None => batch,
    }
}

impl PriceUpdateView {
    /// The state in which a round begins.
    pub open spec fn initial(supported: Option<Seq<(Seq<char>, Seq<char>)>>) -> PriceUpdateView {
        PriceUpdateView {
            supported,
            phase: UpdatePhase::AwaitingDiscovery,
            discovered: Seq::empty(),
            position: 0,
            batch: Seq::empty(),
        }
    }

    /// The place in work is a place of the list that the phase works on.
    pub open spec fn well_formed(self) -> bool {
        match self.phase {
            UpdatePhase::AwaitingQuote | UpdatePhase::AwaitingPace => 0 <= self.position
                < self.discovered.len(),
            UpdatePhase::AwaitingFiatQuote => self.supported is Some && 0 <= self.position
                < self.supported->0.len(),
            _ => true,
        }
    }

    /// The round is over and the batch is published.
    pub open spec fn publish(self) -> (PriceUpdateView, UpdateActionView) {
        (
            PriceUpdateView { phase: UpdatePhase::Finished, position: 0, ..self },
            UpdateActionView::Publish(self.batch),
        )
    }

    /// Goes on with the configured fiat currencies from place `from`; when
    /// none is left the batch is published.
    pub open spec fn resume_fiat(self, from: int) -> (PriceUpdateView, UpdateActionView) {
        match self.supported {
            None => self.publish(),
            Some(members) => {
                let at = next_fiat(members, from);
                if at < members.len() {
                    (
                        PriceUpdateView {
                            phase: UpdatePhase::AwaitingFiatQuote,
                            position: at,
                            ..self
                        },
                        UpdateActionView::Quote(fiat_request(members[at])),
                    )
                } else {
                    self.publish()
                }
            },
        }
    }

    /// Goes on with the listed assets from place `from`; when none in scope
    /// is left, the fiat currencies follow.
    pub open spec fn resume_discovered(self, from: int) -> (PriceUpdateView, UpdateActionView) {
        let at = next_selected(self.supported, self.discovered, from);
        if at < self.discovered.len() {
            (
                PriceUpdateView { phase: UpdatePhase::AwaitingQuote, position: at, ..self },
                UpdateActionView::Quote(self.discovered[at]),
            )
        } else {
            self.resume_fiat(0)
        }
    }

    /// The action that the round is waiting on.
    pub open spec fn pending(self) -> UpdateActionView {
        match self.phase {
            UpdatePhase::AwaitingDiscovery => UpdateActionView::Discover,
            UpdatePhase::AwaitingQuote => UpdateActionView::Quote(self.discovered[self.position]),
            UpdatePhase::AwaitingPace => UpdateActionView::Pace,
            UpdatePhase::AwaitingFiatQuote => UpdateActionView::Quote(
                fiat_request(self.supported->0[self.position]),
            ),
            UpdatePhase::Finished => UpdateActionView::Stop,
        }
    }

    /// The state and the action that follow an event.
    ///
    /// A failed discovery ends the round without publishing. An answer to a
    /// request for a quotation adds a record to the batch or leaves it
    /// unchanged, and the round goes on either way: after a pause for a
    /// listed asset, at once for a fiat currency. An event that does not
    /// answer the action waited on changes nothing, and that action is named
    /// again.
    pub open spec fn step(self, event: UpdateEventView) -> (PriceUpdateView, UpdateActionView) {
        match (self.phase, event) {
            (UpdatePhase::AwaitingDiscovery, UpdateEventView::Discovered(Some(assets))) => (
                PriceUpdateView { discovered: assets, ..self }
            ).resume_discovered(0),
            (UpdatePhase::AwaitingDiscovery, UpdateEventView::Discovered(None)) => (
                PriceUpdateView { phase: UpdatePhase::Finished, ..self },
                UpdateActionView::Stop,
            ),
            (UpdatePhase::AwaitingQuote, UpdateEventView::Quoted(quoted)) => (
                PriceUpdateView {
                    phase: UpdatePhase::AwaitingPace,
                    batch: with_quotation(self.batch, quoted),
                    ..self
                },
                UpdateActionView::Pace,
            ),
            (UpdatePhase::AwaitingPace, UpdateEventView::Paced) => self.resume_discovered(
                self.position + 1,
            ),
            (UpdatePhase::AwaitingFiatQuote, UpdateEventView::Quoted(quoted)) => (
                PriceUpdateView { batch: with_quotation(self.batch, quoted), ..self }
            ).resume_fiat(self.position + 1),
            _ => (self, self.pending()),
        }
    }
}

/// The state of one round of price collection.
pub struct PriceUpdate {
    supported: Option<AssetSet>,
    phase: UpdatePhase,
    discovered: Vec<QuotedAsset>,
    position: usize,
    batch: Vec<CoinInfo>,
}

impl View for PriceUpdate {
    type V = PriceUpdateView;

    closed spec fn view(&self) -> PriceUpdateView {
        PriceUpdateView {
            supported: supported_keys(self.supported),
            phase: self.phase,
            discovered: quoted_asset_views(self.discovered@),
            position: self.position as int,
            batch: record_views(self.batch@),
        }
    }
}

/// Finds the first listed asset in scope at or after `from`.
fn find_selected(supported: &Option<AssetSet>, discovered: &Vec<QuotedAsset>, from: usize) -> (at:
    usize)
    ensures
        at == next_selected(
            supported_keys(*supported),
            quoted_asset_views(discovered@),
            from as int,
        ),
        at <= discovered.len(),
{
    let ghost members = supported_keys(*supported);
    let ghost listed = quoted_asset_views(discovered@);
    if from >= discovered.len() {
        return discovered.len();
    }
    let mut i: usize = from;
    while i < discovered.len()
        invariant
            from <= i <= discovered.len(),
            members == supported_keys(*supported),
            listed == quoted_asset_views(discovered@),
            next_selected(members, listed, from as int) == next_selected(members, listed, i as int),
        decreases discovered.len() - i,
    {
        let asset = AssetSpecifier {
            blockchain: discovered[i].asset.blockchain.clone(),
            symbol: discovered[i].asset.symbol.clone(),
        };
        assert(asset@ == listed[i as int].asset.key());
        if is_selected(&asset, supported) {
            return i;
        }
        i += 1;
    }
    i
}

/// Finds the first fiat currency among the supported assets at or after
/// `from`.
fn find_fiat(members: &AssetSet, from: usize) -> (at: usize)
    ensures
        at == next_fiat(members@, from as int),
        at <= members@.len(),
{
    let count = members.len();
    if from >= count {
        return count;
    }
    let tag = "FIAT".to_owned();
    let mut i: usize = from;
    while i < count
        invariant
            from <= i <= count,
            count == members@.len(),
            tag@ == fiat_tag(),
            next_fiat(members@, from as int) == next_fiat(members@, i as int),
        decreases count - i,
    {
        if members.get(i).blockchain == tag {
            return i;
        }
        i += 1;
    }
    i
}

/// Builds the request that stands for a configured fiat currency.
fn request_for(asset: &AssetSpecifier) -> (request: QuotedAsset)
    ensures
        request@ == fiat_request(asset@),
{
    QuotedAsset {
        asset: Asset {
            symbol: asset.symbol.clone(),
            name: String::new(),
            address: String::new(),
            decimals: 0,
            blockchain: asset.blockchain.clone(),
        },
        volume: Decimal::default(),
    }
}

/// Adds the record of a quotation to the batch, if one came and can be
/// converted.
fn absorb(batch: Vec<CoinInfo>, quoted: Option<Quotation>) -> (extended: Vec<CoinInfo>)
    ensures
        record_views(extended@) == with_quotation(
            record_views(batch@),
            match quoted {
                Some(q) => Some(q@),
                None => None,
            },
        ),
{
    let mut batch = batch;
    let ghost before = record_views(batch@);
    match quoted {
        Some(quotation) => match convert_to_coin_info(quotation) {
            Ok(info) => {
                batch.push(info);
                assert(record_views(batch@) =~= before.push(info@));
            },
            Err(_) => {},
        },
        None => {},
    }
    batch
}

/// Copies a batch of records.
fn copy_records(records: &Vec<CoinInfo>) -> (copy: Vec<CoinInfo>)
    ensures
        record_views(copy@) == record_views(records@),
{
    let mut copy: Vec<CoinInfo> = Vec::new();
    let mut i: usize = 0;
    while i < records.len()
        invariant
            i <= records.len(),
            record_views(copy@) == record_views(records@).take(i as int),
        decreases records.len() - i,
    {
        let ghost before = record_views(copy@);
        let record = records[i].clone();
        copy.push(record);
        assert(record_views(copy@) =~= before.push(record@));
        assert(record_views(records@).take(i + 1) =~= record_views(records@).take(i as int).push(
            records@[i as int]@,
        ));
        i += 1;
    }
    assert(record_views(records@).take(i as int) =~= record_views(records@));
    copy
}

impl PriceUpdate {
    #[verifier::type_invariant]
    spec fn place_is_valid(self) -> bool {
        self@.well_formed()
    }

    /// Ends the round and publishes the batch.
    fn publish(supported: Option<AssetSet>, discovered: Vec<QuotedAsset>, batch: Vec<CoinInfo>) -> (next: (
        PriceUpdate,
        UpdateAction,
    ))
        ensures
            (next.0@, next.1@) == (PriceUpdateView {
                supported: supported_keys(supported),
                phase: UpdatePhase::Finished,
                discovered: quoted_asset_views(discovered@),
                position: 0,
                batch: record_views(batch@),
            }).publish(),
    {
        let published = copy_records(&batch);
        (
            PriceUpdate {
                supported,
                phase: UpdatePhase::Finished,
                discovered,
                position: 0,
                batch,
            },
            UpdateAction::Publish(published),
        )
    }

    /// Begins a round for the given set of supported assets.
    ///
    /// The first action is to ask the source for its list of assets.
    pub fn start(supported: Option<AssetSet>) -> (begun: (PriceUpdate, UpdateAction))
        ensures
            begun.0@ == PriceUpdateView::initial(supported_keys(supported)),
            begun.1@ == UpdateActionView::Discover,
    {
        let state = PriceUpdate {
            supported,
            phase: UpdatePhase::AwaitingDiscovery,
            discovered: Vec::new(),
            position: 0,
            batch: Vec::new(),
        };
        assert(quoted_asset_views(state.discovered@) =~= Seq::empty());
        assert(record_views(state.batch@) =~= Seq::empty());
        (state, UpdateAction::Discover)
    }

    /// Goes on with the configured fiat currencies from place `from`.
    fn resume_fiat(
        supported: Option<AssetSet>,
        discovered: Vec<QuotedAsset>,
        batch: Vec<CoinInfo>,
        from: usize,
    ) -> (next: (PriceUpdate, UpdateAction))
        ensures
            (next.0@, next.1@) == (PriceUpdateView {
                supported: supported_keys(supported),
                phase: UpdatePhase::Finished,
                discovered: quoted_asset_views(discovered@),
                position: 0,
                batch: record_views(batch@),
            }).resume_fiat(from as int),
    {
        let found = match &supported {
            None => None,
            Some(members) => {
                let at = find_fiat(members, from);
                if at < members.len() {
                    Some((at, request_for(members.get(at))))
                } else {
                    None
                }
            },
        };
        match found {
            Some((at, request)) => (
                PriceUpdate {
                    supported,
                    phase: UpdatePhase::AwaitingFiatQuote,
                    discovered,
                    position: at,
                    batch,
                },
                UpdateAction::Quote(request),
            ),
            None => PriceUpdate::publish(supported, discovered, batch),
        }
    }

    /// Goes on with the listed assets from place `from`.
    fn resume_discovered(
        supported: Option<AssetSet>,
        discovered: Vec<QuotedAsset>,
        batch: Vec<CoinInfo>,
        from: usize,
    ) -> (next: (PriceUpdate, UpdateAction))
        ensures
            (next.0@, next.1@) == (PriceUpdateView {
                supported: supported_keys(supported),
                phase: UpdatePhase::Finished,
                discovered: quoted_asset_views(discovered@),
                position: 0,
                batch: record_views(batch@),
            }).resume_discovered(from as int),
    {
        let at = find_selected(&supported, &discovered, from);
        if at < discovered.len() {
            let request = discovered[at].clone();
            (
                PriceUpdate {
                    supported,
                    phase: UpdatePhase::AwaitingQuote,
                    discovered,
                    position: at,
                    batch,
                },
                UpdateAction::Quote(request),
            )
        } else {
            PriceUpdate::resume_fiat(supported, discovered, batch, 0)
        }
    }

    /// Names the action that the round is waiting on.
    pub fn pending(&self) -> (action: UpdateAction)
        ensures
            action@ == self@.pending(),
    {
        proof {
            use_type_invariant(self);
        }
        match self.phase {
            UpdatePhase::AwaitingDiscovery => UpdateAction::Discover,
            UpdatePhase::AwaitingQuote => UpdateAction::Quote(self.discovered[self.position].clone()),
            UpdatePhase::AwaitingPace => UpdateAction::Pace,
            UpdatePhase::AwaitingFiatQuote => match &self.supported {
                Some(members) => UpdateAction::Quote(request_for(members.get(self.position))),
                None => UpdateAction::Stop,
            },
            UpdatePhase::Finished => UpdateAction::Stop,
        }
    }

    /// Takes in what came back from the last action and names the next one.
    ///
    /// The round goes from one state to the next as
    /// [`PriceUpdateView::step`] says.
    pub fn step(self, event: UpdateEvent) -> (next: (PriceUpdate, UpdateAction))
        ensures
            (next.0@, next.1@) == self@.step(event@),
    {
        proof {
            use_type_invariant(&self);
        }
        let ghost before = self@;
        let PriceUpdate { supported, phase, discovered, position, batch } = self;
        match (phase, event) {
            (UpdatePhase::AwaitingDiscovery, UpdateEvent::Discovered(Some(assets))) => {
                PriceUpdate::resume_discovered(supported, assets, batch, 0)
            },
            (UpdatePhase::AwaitingDiscovery, UpdateEvent::Discovered(None)) => (
                PriceUpdate { supported, phase: UpdatePhase::Finished, discovered, position, batch },
                UpdateAction::Stop,
            ),
            (UpdatePhase::AwaitingQuote, UpdateEvent::Quoted(quoted)) => {
                let batch = absorb(batch, quoted);
                (
                    PriceUpdate {
                        supported,
                        phase: UpdatePhase::AwaitingPace,
                        discovered,
                        position,
                        batch,
                    },
                    UpdateAction::Pace,
                )
            },
            (UpdatePhase::AwaitingPace, UpdateEvent::Paced) => {
                assert(before.well_formed());
                assert(position < discovered.len());
                PriceUpdate::resume_discovered(supported, discovered, batch, position + 1)
            },
            (UpdatePhase::AwaitingFiatQuote, UpdateEvent::Quoted(quoted)) => {
                assert(before.well_formed());
                let count = match &supported {
                    Some(members) => members.len(),
                    None => 0,
                };
                let following = if position < count {
                    position + 1
                } else {
                    count
                };
                let batch = absorb(batch, quoted);
                PriceUpdate::resume_fiat(supported, discovered, batch, following)
            },
            (phase, _) => {
                let state = PriceUpdate { supported, phase, discovered, position, batch };
                let action = state.pending();
                (state, action)
            },
        }
    }

    /// Whether the round is over.
    pub fn is_finished(&self) -> (finished: bool)
        ensures
            finished == (self@.phase == UpdatePhase::Finished),
    {
        self.phase == UpdatePhase::Finished
    }

    /// Where the round stands. Whatever the phase, the place in work is a
    /// place of the list that the phase works on.
    pub fn phase(&self) -> (phase: UpdatePhase)
        ensures
            phase == self@.phase,
            self@.well_formed(),
    {
        proof {
            use_type_invariant(self);
        }
        self.phase
    }
}

} // verus!
