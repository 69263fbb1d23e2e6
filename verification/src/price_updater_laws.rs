//! What a round of price collection publishes.
//!
//! A round is driven step by step. The laws here say what comes out when
//! the driver performs every action faithfully: the batch that a plain walk
//! through the listed assets and the configured fiat currencies would
//! build.

use crate::asset::selects;
use crate::dia::QuotationView;
use crate::dia::QuotedAssetView;
use crate::price_updater::fiat_request;
use crate::price_updater::fiat_tag;
use crate::price_updater::next_fiat;
use crate::price_updater::next_selected;
use crate::price_updater::with_quotation;
use crate::price_updater::PriceUpdateView;
use crate::price_updater::UpdateActionView;
use crate::price_updater::UpdateEventView;
use crate::price_updater::UpdatePhase;
use crate::storage::CoinInfoView;
use vstd::prelude::*;

verus! {

/// A quotation source as the laws see it: what it lists, and what it answers
/// to a request for a quotation. `None` stands for a failure.
pub struct Source {
    pub listing: Option<Seq<QuotedAssetView>>,
    pub quote: spec_fn(QuotedAssetView) -> Option<QuotationView>,
}

/// What a faithful driver reports after it has performed `action`.
pub open spec fn answer(source: Source, action: UpdateActionView) -> UpdateEventView {
    match action {
        UpdateActionView::Discover => UpdateEventView::Discovered(source.listing),
        UpdateActionView::Quote(asset) => UpdateEventView::Quoted((source.quote)(asset)),
        _ => UpdateEventView::Paced,
    }
}

/// The action at which a round stands after a faithful driver has performed
/// up to `steps` actions, starting with `action` in state `state`. The
/// driver stops at the first action that ends the round.
pub open spec fn run(
    state: PriceUpdateView,
    action: UpdateActionView,
    source: Source,
    steps: nat,
) -> UpdateActionView
    decreases steps,
{
    match action {
        UpdateActionView::Publish(_) | UpdateActionView::Stop => action,
        _ => if steps == 0 {
            action
        } else {
            let next = state.step(answer(source, action));
            run(next.0, next.1, source, (steps - 1) as nat)
        },
    }
}

/// The batch after a walk through the listed assets from place `from`:
/// every asset in scope is quoted, and its record is added when a quotation
/// comes and can be converted.
pub open spec fn batch_after_listed(
    supported: Option<Seq<(Seq<char>, Seq<char>)>>,
    listed: Seq<QuotedAssetView>,
    quote: spec_fn(QuotedAssetView) -> Option<QuotationView>,
    batch: Seq<CoinInfoView>,
    from: int,
) -> Seq<CoinInfoView>
    decreases listed.len() - from,
{
    if from < 0 || from >= listed.len() {
        batch
    } else if selects(supported, listed[from].asset.key()) {
        batch_after_listed(
            supported,
            listed,
            quote,
            with_quotation(batch, quote(listed[from])),
            from + 1,
        )
    } else {
        batch_after_listed(supported, listed, quote, batch, from + 1)
    }
}

/// The batch after a walk through the supported assets from place `from`:
/// every fiat currency is quoted by its identity alone, and its record is
/// added when a quotation comes and can be converted.
pub open spec fn batch_after_fiat(
    members: Seq<(Seq<char>, Seq<char>)>,
    quote: spec_fn(QuotedAssetView) -> Option<QuotationView>,
    batch: Seq<CoinInfoView>,
    from: int,
) -> Seq<CoinInfoView>
    decreases members.len() - from,
{
    if from < 0 || from >= members.len() {
        batch
    } else if members[from].0 == fiat_tag() {
        batch_after_fiat(
            members,
            quote,
            with_quotation(batch, quote(fiat_request(members[from]))),
            from + 1,
        )
    } else {
        batch_after_fiat(members, quote, batch, from + 1)
    }
}

/// The batch that a round publishes for a given listing: the records of the
/// listed assets in scope, in the order of the listing, followed by the
/// records of the configured fiat currencies, in the order of the
/// configuration.
pub open spec fn published_batch(
    supported: Option<Seq<(Seq<char>, Seq<char>)>>,
    listed: Seq<QuotedAssetView>,
    quote: spec_fn(QuotedAssetView) -> Option<QuotationView>,
) -> Seq<CoinInfoView> {
    let after_listed = batch_after_listed(supported, listed, quote, Seq::empty(), 0);
    match supported {
        None => after_listed,
        Some(members) => batch_after_fiat(members, quote, after_listed, 0),
    }
}

/// The number of actions that a round takes at most: one to list the
/// assets, two for each listed asset, one for each supported asset.
pub open spec fn round_length(
    supported: Option<Seq<(Seq<char>, Seq<char>)>>,
    listed: Seq<QuotedAssetView>,
) -> nat {
    1 + 2 * listed.len() + match supported {
        None => 0,
        Some(members) => members.len(),
    }
}

/// The walk through the fiat currencies jumps from one fiat currency to the
/// next.
proof fn lemma_fiat_walk_jumps(
    members: Seq<(Seq<char>, Seq<char>)>,
    quote: spec_fn(QuotedAssetView) -> Option<QuotationView>,
    batch: Seq<CoinInfoView>,
    from: int,
)
    requires
        0 <= from,
    ensures
        from <= next_fiat(members, from) || next_fiat(members, from) == members.len(),
        next_fiat(members, from) <= members.len(),
        next_fiat(members, from) < members.len() ==> members[next_fiat(members, from)].0
            == fiat_tag(),
        batch_after_fiat(members, quote, batch, from) == if next_fiat(members, from)
            >= members.len() {
            batch
        } else {
            batch_after_fiat(
                members,
                quote,
                with_quotation(
                    batch,
                    quote(fiat_request(members[next_fiat(members, from)])),
                ),
                next_fiat(members, from) + 1,
            )
        },
    decreases members.len() - from,
{
    if from < members.len() && members[from].0 != fiat_tag() {
        lemma_fiat_walk_jumps(members, quote, batch, from + 1);
    }
}

/// The walk through the listed assets jumps from one asset in scope to the
/// next.
proof fn lemma_listed_walk_jumps(
    supported: Option<Seq<(Seq<char>, Seq<char>)>>,
    listed: Seq<QuotedAssetView>,
    quote: spec_fn(QuotedAssetView) -> Option<QuotationView>,
    batch: Seq<CoinInfoView>,
    from: int,
)
    requires
        0 <= from,
    ensures
        from <= next_selected(supported, listed, from) || next_selected(supported, listed, from)
            == listed.len(),
        next_selected(supported, listed, from) <= listed.len(),
        batch_after_listed(supported, listed, quote, batch, from) == if next_selected(
            supported,
            listed,
            from,
        ) >= listed.len() {
            batch
        } else {
            batch_after_listed(
                supported,
                listed,
                quote,
                with_quotation(batch, quote(listed[next_selected(supported, listed, from)])),
                next_selected(supported, listed, from) + 1,
            )
        },
    decreases listed.len() - from,
{
    if from < listed.len() && !selects(supported, listed[from].asset.key()) {
        lemma_listed_walk_jumps(supported, listed, quote, batch, from + 1);
    }
}

/// The batch at the end of the fiat currencies, whether a set of supported
/// assets is configured or not.
pub open spec fn batch_at_end(
    supported: Option<Seq<(Seq<char>, Seq<char>)>>,
    quote: spec_fn(QuotedAssetView) -> Option<QuotationView>,
    batch: Seq<CoinInfoView>,
    from: int,
) -> Seq<CoinInfoView> {
    match supported {
        None => batch,
        Some(members) => batch_after_fiat(members, quote, batch, from),
    }
}

/// The steps that the fiat currencies from place `from` take at most.
pub open spec fn fiat_steps(supported: Option<Seq<(Seq<char>, Seq<char>)>>, from: int) -> int {
    match supported {
        None => 0,
        Some(members) => if from >= members.len() {
            0
        } else {
            members.len() - from
        },
    }
}

/// Once a round works on the fiat currencies, it ends by publishing the
/// batch that the walk through the rest of them builds.
proof fn lemma_fiat_phase_publishes(state: PriceUpdateView, source: Source, from: int, steps: nat)
    requires
        0 <= from,
        steps >= fiat_steps(state.supported, from),
    ensures
        run(state.resume_fiat(from).0, state.resume_fiat(from).1, source, steps)
            == UpdateActionView::Publish(
            batch_at_end(state.supported, source.quote, state.batch, from),
        ),
    decreases fiat_steps(state.supported, from),
{
    match state.supported {
        None => {},
        Some(members) => {
            lemma_fiat_walk_jumps(members, source.quote, state.batch, from);
            let at = next_fiat(members, from);
            if at < members.len() {
                let resumed = state.resume_fiat(from);
                let quoted = (source.quote)(fiat_request(members[at]));
                let after = PriceUpdateView {
                    batch: with_quotation(state.batch, quoted),
                    ..resumed.0
                };
                assert(resumed.0.step(answer(source, resumed.1)) == after.resume_fiat(at + 1));
                lemma_fiat_phase_publishes(after, source, at + 1, (steps - 1) as nat);
            }
        },
    }
}

/// Once a round works on the listed assets, it ends by publishing the batch
/// that the walk through the rest of them, and then through the fiat
/// currencies, builds.
proof fn lemma_listed_phase_publishes(
    state: PriceUpdateView,
    source: Source,
    from: int,
    steps: nat,
)
    requires
        0 <= from <= state.discovered.len(),
        steps >= 2 * (state.discovered.len() - from) + fiat_steps(state.supported, 0),
    ensures
        run(state.resume_discovered(from).0, state.resume_discovered(from).1, source, steps)
            == UpdateActionView::Publish(
            batch_at_end(
                state.supported,
                source.quote,
                batch_after_listed(
                    state.supported,
                    state.discovered,
                    source.quote,
                    state.batch,
                    from,
                ),
                0,
            ),
        ),
    decreases state.discovered.len() - from,
{
    lemma_listed_walk_jumps(state.supported, state.discovered, source.quote, state.batch, from);
    let at = next_selected(state.supported, state.discovered, from);
    if at < state.discovered.len() {
        let resumed = state.resume_discovered(from);
        let quoted = (source.quote)(state.discovered[at]);
        let paused = PriceUpdateView {
            phase: UpdatePhase::AwaitingPace,
            batch: with_quotation(state.batch, quoted),
            ..resumed.0
        };
        assert(resumed.0.step(answer(source, resumed.1)) == (paused, UpdateActionView::Pace));
        assert(paused.step(answer(source, UpdateActionView::Pace)) == paused.resume_discovered(
            at + 1,
        ));
        lemma_listed_phase_publishes(paused, source, at + 1, (steps - 2) as nat);
        assert(run(resumed.0, resumed.1, source, steps) == run(
            paused,
            UpdateActionView::Pace,
            source,
            (steps - 1) as nat,
        ));
        assert(run(paused, UpdateActionView::Pace, source, (steps - 1) as nat) == run(
            paused.resume_discovered(at + 1).0,
            paused.resume_discovered(at + 1).1,
            source,
            (steps - 2) as nat,
        ));
    } else {
        lemma_fiat_phase_publishes(state, source, 0, steps);
    }
}

/// A round that is driven faithfully ends in one of two ways. When the
/// source fails to list its assets, the round stops and publishes nothing,
/// so the published snapshot stays as it was. Else it publishes, once, the
/// records of the listed assets in scope followed by those of the
/// configured fiat currencies; an asset whose quotation fails or cannot be
/// converted is left out and holds nothing else up.
pub proof fn lemma_round_outcome(
    supported: Option<Seq<(Seq<char>, Seq<char>)>>,
    source: Source,
    steps: nat,
)
    requires
        match source.listing {
            None => steps >= 1,
            Some(listed) => steps >= round_length(supported, listed),
        },
    ensures
        run(PriceUpdateView::initial(supported), UpdateActionView::Discover, source, steps)
            == match source.listing {
            None => UpdateActionView::Stop,
            Some(listed) => UpdateActionView::Publish(
                published_batch(supported, listed, source.quote),
            ),
        },
{
    let begun = PriceUpdateView::initial(supported);
    match source.listing {
        None => {
            let next = begun.step(answer(source, UpdateActionView::Discover));
            assert(next.1 == UpdateActionView::Stop);
            assert(run(next.0, next.1, source, (steps - 1) as nat) == UpdateActionView::Stop);
        },
        Some(listed) => {
            let listing = PriceUpdateView { discovered: listed, ..begun };
            assert(begun.step(answer(source, UpdateActionView::Discover))
                == listing.resume_discovered(0));
            lemma_listed_phase_publishes(listing, source, 0, (steps - 1) as nat);
        },
    }
}

/// A round never publishes a record of a listed asset that is out of scope:
/// the walk through the listing passes over it.
pub proof fn lemma_out_of_scope_is_passed_over(
    supported: Option<Seq<(Seq<char>, Seq<char>)>>,
    listed: Seq<QuotedAssetView>,
    quote: spec_fn(QuotedAssetView) -> Option<QuotationView>,
    batch: Seq<CoinInfoView>,
    from: int,
)
    requires
        0 <= from < listed.len(),
        !selects(supported, listed[from].asset.key()),
    ensures
        batch_after_listed(supported, listed, quote, batch, from) == batch_after_listed(
            supported,
            listed,
            quote,
            batch,
            from + 1,
        ),
{
}

} // verus!
