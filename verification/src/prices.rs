//! Deciding where the hardware prices come from: the local cache, a fresh fetch, or the defaults.
use vstd::prelude::*;

verus! {

/// Where the prices in use came from.
#[derive(Clone, Copy, Debug, PartialEq, Eq, Structural)]
pub enum PriceSource {
    /// The prices read from the cache.
    Cached,
    /// The prices just fetched.
    Fetched,
    /// The built-in defaults.
    Default,
}

/// What loading the prices does next.
#[derive(Clone, Copy, Debug, PartialEq, Eq, Structural)]
pub enum PriceLoad {
    /// Read the cached prices.
    ReadCache,
    /// Fetch current prices.
    Fetch,
    /// Write the fetched prices to the cache.
    Save,
    /// The fetch failed: read the cache once more.
    ReadCacheAgain,
    /// Loading is over; use the prices from this source.
    Done(PriceSource),
}

/// What the step just taken reported.
#[derive(Clone, Copy, Debug, PartialEq, Eq, Structural)]
pub enum PriceEvent {
    /// The cache was read: whether it held prices, and whether they were updated today.
    CacheRead { loaded: bool, from_today: bool },
    /// The fetch finished, successfully or not.
    Fetched { ok: bool },
    /// The write to the cache finished (its outcome does not matter).
    Saved,
    /// The second read of the cache finished: whether it held prices.
    CacheReread { loaded: bool },
}

/// The state after `event` in state `state`; an event that does not answer the
/// state's step leaves the state as it is.
pub open spec fn price_transition(state: PriceLoad, event: PriceEvent) -> PriceLoad {
    match (state, event) {
        (PriceLoad::ReadCache, PriceEvent::CacheRead { loaded, from_today }) => {
            if loaded && from_today {
                PriceLoad::Done(PriceSource::Cached)
            } else {
                PriceLoad::Fetch
            }
        },
        (PriceLoad::Fetch, PriceEvent::Fetched { ok }) => {
            if ok {
                PriceLoad::Save
            } else {
                PriceLoad::ReadCacheAgain
            }
        },
        (PriceLoad::Save, PriceEvent::Saved) => PriceLoad::Done(PriceSource::Fetched),
        (PriceLoad::ReadCacheAgain, PriceEvent::CacheReread { loaded }) => {
            if loaded {
                PriceLoad::Done(PriceSource::Cached)
            } else {
                PriceLoad::Done(PriceSource::Default)
            }
        },
        _ => state,
    }
}

/// `event` is the report of the step that `state` asks for.
pub open spec fn answers(state: PriceLoad, event: PriceEvent) -> bool {
    match (state, event) {
        (PriceLoad::ReadCache, PriceEvent::CacheRead { .. }) => true,
        (PriceLoad::Fetch, PriceEvent::Fetched { .. }) => true,
        (PriceLoad::Save, PriceEvent::Saved) => true,
        (PriceLoad::ReadCacheAgain, PriceEvent::CacheReread { .. }) => true,
        _ => false,
    }
}

/// The state reached from `state` after the events `events`, in order.
pub open spec fn price_run(state: PriceLoad, events: Seq<PriceEvent>) -> PriceLoad
    decreases events.len(),
{
    if events.len() == 0 {
        state
    } else {
        price_run(price_transition(state, events[0]), events.drop_first())
    }
}

/// Loading begins by reading the cache.
pub fn price_load_start() -> (s: PriceLoad)
    ensures
        s == PriceLoad::ReadCache,
{
    PriceLoad::ReadCache
}

/// The next step of loading the prices, after `event`.
pub fn next_price_step(state: PriceLoad, event: PriceEvent) -> (next: PriceLoad)
    ensures
        next == price_transition(state, event),
{
    match (state, event) {
        (PriceLoad::ReadCache, PriceEvent::CacheRead { loaded, from_today }) => {
            if loaded && from_today {
                PriceLoad::Done(PriceSource::Cached)
            } else {
                PriceLoad::Fetch
            }
        },
        (PriceLoad::Fetch, PriceEvent::Fetched { ok }) => {
            if ok {
                PriceLoad::Save
            } else {
                PriceLoad::ReadCacheAgain
            }
        },
        (PriceLoad::Save, PriceEvent::Saved) => PriceLoad::Done(PriceSource::Fetched),
        (PriceLoad::ReadCacheAgain, PriceEvent::CacheReread { loaded }) => {
            if loaded {
                PriceLoad::Done(PriceSource::Cached)
            } else {
                PriceLoad::Done(PriceSource::Default)
            }
        },
        _ => state,
    }
}

/// Once loading is over, no later event changes the outcome.
pub proof fn lemma_done_is_final(source: PriceSource, events: Seq<PriceEvent>)
    ensures
        price_run(PriceLoad::Done(source), events) == PriceLoad::Done(source),
    decreases events.len(),
{
    if events.len() > 0 {
        lemma_done_is_final(source, events.drop_first());
    }
}

/// Prices are refreshed at most once a day: when the cache holds prices updated
/// today, they are used and no fetch is ever asked for, whatever is reported later.
pub proof fn lemma_fresh_cache_is_kept(events: Seq<PriceEvent>)
    ensures
        price_run(PriceLoad::ReadCache, seq![PriceEvent::CacheRead { loaded: true, from_today: true }] + events)
            == PriceLoad::Done(PriceSource::Cached),
{
    let all = seq![PriceEvent::CacheRead { loaded: true, from_today: true }] + events;
    assert(all[0] == PriceEvent::CacheRead { loaded: true, from_today: true });
    assert(all.drop_first() =~= events);
    lemma_done_is_final(PriceSource::Cached, events);
}

/// Loading always ends: after at most three steps, each answered by its report,
/// the prices to use are decided; the defaults are used only when neither the
/// fetch nor the cache gave prices.
pub proof fn lemma_loading_ends(e1: PriceEvent, e2: PriceEvent, e3: PriceEvent)
    requires
        answers(PriceLoad::ReadCache, e1),
        price_transition(PriceLoad::ReadCache, e1) is Done
            || answers(price_transition(PriceLoad::ReadCache, e1), e2),
        price_run(PriceLoad::ReadCache, seq![e1, e2]) is Done
            || answers(price_run(PriceLoad::ReadCache, seq![e1, e2]), e3),
    ensures
        price_run(PriceLoad::ReadCache, seq![e1, e2, e3]) is Done,
        price_run(PriceLoad::ReadCache, seq![e1, e2, e3]) == PriceLoad::Done(PriceSource::Default) ==> {
            &&& e1 matches PriceEvent::CacheRead { .. }
            &&& e2 == PriceEvent::Fetched { ok: false }
            &&& e3 == PriceEvent::CacheReread { loaded: false }
        },
{
    let s1 = price_transition(PriceLoad::ReadCache, e1);
    let s2 = price_transition(s1, e2);
    let s3 = price_transition(s2, e3);
    reveal_with_fuel(price_run, 4);
    assert(seq![e1, e2].drop_first() =~= seq![e2]);
    assert(seq![e2].drop_first() =~= Seq::<PriceEvent>::empty());
    assert(seq![e1, e2, e3].drop_first() =~= seq![e2, e3]);
    assert(seq![e2, e3].drop_first() =~= seq![e3]);
    assert(seq![e3].drop_first() =~= Seq::<PriceEvent>::empty());
    assert(price_run(PriceLoad::ReadCache, seq![e1, e2]) == s2);
    assert(price_run(PriceLoad::ReadCache, seq![e1, e2, e3]) == s3);
}

/// Reading the cache ends the loading only when it gave prices updated today;
/// any other outcome of the read (no cache, or a cache from an earlier day) leads
/// to a fetch.
pub proof fn lemma_stale_cache_is_refreshed(loaded: bool, from_today: bool)
    ensures
        !(loaded && from_today) ==> price_transition(
            PriceLoad::ReadCache,
            PriceEvent::CacheRead { loaded, from_today },
        ) == PriceLoad::Fetch,
        price_transition(PriceLoad::ReadCache, PriceEvent::CacheRead { loaded, from_today })
            == PriceLoad::Done(PriceSource::Cached) ==> loaded && from_today,
        price_transition(PriceLoad::ReadCache, PriceEvent::CacheRead { loaded, from_today }) is Done
            || price_transition(PriceLoad::ReadCache, PriceEvent::CacheRead { loaded, from_today })
            == PriceLoad::Fetch,
{
}

} // verus!
