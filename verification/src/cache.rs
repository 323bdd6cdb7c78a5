//! The token cache and the coordination of refreshes.
//!
//! The cache holds, per scope set, the token last issued and the callers
//! that wait for the refresh in flight, if one is. A request is answered
//! from the cache while the cached token is usable. Otherwise the first
//! caller is told to refresh and every further caller to wait, until the
//! refresh is completed and its outcome is delivered to all of them at
//! once. Each operation is one atomic step for whoever shares the cache.

use crate::error::{Error, ErrorView};
use crate::scope::ScopeSet;
use crate::token::{usable_at, Token, TokenView, SAFETY_MARGIN};
use crate::wire::outcome_view;
use vstd::prelude::*;

verus! {

/// What the cache holds for one scope set, as mathematical values: the
/// token last issued, if any, and the callers waiting for the refresh in
/// flight, the refreshing caller first. A refresh is in flight exactly
/// while there are such callers.
pub struct SlotView {
    pub token: Option<TokenView>,
    pub waiters: Seq<u64>,
}

/// The cache as a mathematical value: a slot per scope set.
pub type CacheView = Map<Seq<Seq<char>>, SlotView>;

/// What the cache answers to a request, as mathematical values.
pub enum LookupView {
    Hit(TokenView),
    Refresh,
    Wait,
}

/// The slot of `key`; a scope set never asked for has an empty one.
pub open spec fn slot_of(cache: CacheView, key: Seq<Seq<char>>) -> SlotView {
    if cache.dom().contains(key) {
        cache[key]
    } else {
        SlotView { token: None, waiters: Seq::empty() }
    }
}

/// The cached token for `key` if it is usable at `now`.
pub open spec fn usable_token(cache: CacheView, key: Seq<Seq<char>>, now: u64) -> Option<TokenView> {
    match slot_of(cache, key).token {
        Some(token) => if usable_at(token.expires_at, now) {
            Some(token)
        } else {
            None
        },
        None => None,
    }
}

/// Whether a refresh for `key` is in flight.
pub open spec fn refresh_in_flight(cache: CacheView, key: Seq<Seq<char>>) -> bool {
    slot_of(cache, key).waiters.len() > 0
}

/// The answer to a request for `key` at `now`: the cached token while it is
/// usable; else to wait where a refresh is in flight, and to refresh where
/// none is.
pub open spec fn request_action(cache: CacheView, key: Seq<Seq<char>>, now: u64) -> LookupView {
    match usable_token(cache, key, now) {
        Some(token) => LookupView::Hit(token),
        None => if refresh_in_flight(cache, key) {
            LookupView::Wait
        } else {
            LookupView::Refresh
        },
    }
}

/// The cache after `caller` requested `key` at `now`: unchanged on a hit;
/// else the caller has joined those waiting for the refresh of `key`.
pub open spec fn after_request(cache: CacheView, caller: u64, key: Seq<Seq<char>>, now: u64) -> CacheView {
    match usable_token(cache, key, now) {
        Some(_) => cache,
        None => cache.insert(
            key,
            SlotView {
                token: slot_of(cache, key).token,
                waiters: slot_of(cache, key).waiters.push(caller),
            },
        ),
    }
}

/// The cache after the refresh of `key` ended with `outcome`: a new token
/// replaces the cached one, a failure leaves it in place; either way no
/// refresh is in flight any more. Where none was, nothing changes.
pub open spec fn after_completion(
    cache: CacheView,
    key: Seq<Seq<char>>,
    outcome: Result<TokenView, ErrorView>,
) -> CacheView {
    if refresh_in_flight(cache, key) {
        cache.insert(
            key,
            SlotView {
                token: match outcome {
                    Ok(token) => Some(token),
                    Err(_) => slot_of(cache, key).token,
                },
                waiters: Seq::empty(),
            },
        )
    } else {
        cache
    }
}

struct Slot {
    key: ScopeSet,
    token: Option<Token>,
    waiters: Vec<u64>,
}

impl Slot {
    spec fn content(&self) -> SlotView {
        SlotView {
            token: match self.token {
                Some(token) => Some(token@),
                None => None,
            },
            waiters: self.waiters@,
        }
    }
}

spec fn distinct_keys(slots: Seq<Slot>) -> bool {
    forall|i: int, j: int|
        0 <= i < j < slots.len() ==> (#[trigger] slots[i]).key@ != (#[trigger] slots[j]).key@
}

spec fn holds(slots: Seq<Slot>, key: Seq<Seq<char>>) -> bool {
    exists|i: int| 0 <= i < slots.len() && (#[trigger] slots[i]).key@ == key
}

spec fn index_of(slots: Seq<Slot>, key: Seq<Seq<char>>) -> int {
    choose|i: int| 0 <= i < slots.len() && (#[trigger] slots[i]).key@ == key
}

spec fn model(slots: Seq<Slot>) -> CacheView {
    Map::new(|key: Seq<Seq<char>>| holds(slots, key), |key: Seq<Seq<char>>| slots[index_of(slots, key)].content())
}

proof fn lemma_model_at(slots: Seq<Slot>, i: int)
    requires
        distinct_keys(slots),
        0 <= i < slots.len(),
    ensures
        model(slots).dom().contains(slots[i].key@),
        model(slots)[slots[i].key@] == slots[i].content(),
{
    let key = slots[i].key@;
    assert(holds(slots, key));
    let j = index_of(slots, key);
    assert(0 <= j < slots.len() && slots[j].key@ == key);
    if i < j {
        assert(slots[i].key@ != slots[j].key@);
    } else if j < i {
        assert(slots[j].key@ != slots[i].key@);
    }
}

proof fn lemma_model_replace(slots: Seq<Slot>, i: int, slot: Slot)
    requires
        distinct_keys(slots),
        0 <= i < slots.len(),
        slot.key@ == slots[i].key@,
    ensures
        distinct_keys(slots.update(i, slot)),
        model(slots.update(i, slot)) == model(slots).insert(slot.key@, slot.content()),
{
    let after = slots.update(i, slot);
    assert forall|a: int, b: int| 0 <= a < b < after.len() implies (#[trigger] after[a]).key@ != (
    #[trigger] after[b]).key@ by {
        assert(slots[a].key@ != slots[b].key@);
    }
    let expected = model(slots).insert(slot.key@, slot.content());
    assert forall|key: Seq<Seq<char>>| model(after).dom().contains(key) <==> expected.dom().contains(
        key,
    ) by {
        if holds(after, key) {
            let j = index_of(after, key);
            assert(slots[j].key@ == key);
        }
        if holds(slots, key) {
            let j = index_of(slots, key);
            assert(after[j].key@ == key);
        }
        if key == slot.key@ {
            assert(after[i].key@ == key);
        }
    }
    assert forall|key: Seq<Seq<char>>| model(after).dom().contains(key) implies model(after)[key]
        == expected[key] by {
        let j = index_of(after, key);
        lemma_model_at(after, j);
        if j != i {
            assert(slots[j].key@ == key);
            lemma_model_at(slots, j);
            if i < j {
                assert(slots[i].key@ != slots[j].key@);
            } else {
                assert(slots[j].key@ != slots[i].key@);
            }
        }
    }
    assert(model(after) =~= expected);
}

proof fn lemma_model_push(slots: Seq<Slot>, slot: Slot)
    requires
        distinct_keys(slots),
        !holds(slots, slot.key@),
    ensures
        distinct_keys(slots.push(slot)),
        model(slots.push(slot)) == model(slots).insert(slot.key@, slot.content()),
{
    let after = slots.push(slot);
    assert forall|a: int, b: int| 0 <= a < b < after.len() implies (#[trigger] after[a]).key@ != (
    #[trigger] after[b]).key@ by {
        if b < slots.len() {
            assert(slots[a].key@ != slots[b].key@);
        } else {
            assert(slots[a].key@ != slot.key@);
        }
    }
    let expected = model(slots).insert(slot.key@, slot.content());
    assert forall|key: Seq<Seq<char>>| model(after).dom().contains(key) <==> expected.dom().contains(
        key,
    ) by {
        if holds(after, key) {
            let j = index_of(after, key);
            if j < slots.len() {
                assert(slots[j].key@ == key);
            }
        }
        if holds(slots, key) {
            let j = index_of(slots, key);
            assert(after[j].key@ == key);
        }
        if key == slot.key@ {
            assert(after[slots.len() as int].key@ == key);
        }
    }
    assert forall|key: Seq<Seq<char>>| model(after).dom().contains(key) implies model(after)[key]
        == expected[key] by {
        let j = index_of(after, key);
        lemma_model_at(after, j);
        if j < slots.len() {
            assert(slots[j].key@ == key);
            lemma_model_at(slots, j);
        }
    }
    assert(model(after) =~= expected);
}

/// What the cache answers to a request.
#[derive(Debug)]
pub enum Lookup {
    /// The cached token is usable: here it is.
    Hit(Token),
    /// No usable token and no refresh in flight: the caller is to issue a
    /// token and to complete the refresh with the outcome.
    Refresh,
    /// A refresh is in flight: the caller is to wait for its outcome.
    Wait,
}

impl View for Lookup {
    type V = LookupView;

    open spec fn view(&self) -> LookupView {
        match self {
            Lookup::Hit(token) => LookupView::Hit(token@),
            Lookup::Refresh => LookupView::Refresh,
            Lookup::Wait => LookupView::Wait,
        }
    }
}

/// The end of a refresh: its outcome, and the callers it goes to, the
/// refreshing caller first.
#[derive(Debug)]
pub struct Delivery {
    pub callers: Vec<u64>,
    pub outcome: Result<Token, Error>,
}

/// Tokens by scope set, with the callers waiting for each refresh in flight.
pub struct TokenCache {
    slots: Vec<Slot>,
}

impl View for TokenCache {
    type V = CacheView;

    closed spec fn view(&self) -> CacheView {
        model(self.slots@)
    }
}

impl TokenCache {
    #[verifier::type_invariant]
    spec fn one_slot_per_key(&self) -> bool {
        distinct_keys(self.slots@)
    }

    /// An empty cache.
    pub fn new() -> (cache: TokenCache)
        ensures
            cache@ == Map::<Seq<Seq<char>>, SlotView>::empty(),
    {
        let cache = TokenCache { slots: Vec::new() };
        assert(cache@ =~= Map::<Seq<Seq<char>>, SlotView>::empty());
        cache
    }

    fn find(&self, key: &ScopeSet) -> (found: Option<usize>)
        ensures
            match found {
                Some(i) => i < self.slots.len() && self.slots@[i as int].key@ == key@,
                None => !holds(self.slots@, key@),
            },
    {
        let mut i: usize = 0;
        while i < self.slots.len()
            invariant
                i <= self.slots.len(),
                forall|j: int| 0 <= j < i ==> (#[trigger] self.slots@[j]).key@ != key@,
            decreases self.slots.len() - i,
        {
            if self.slots[i].key.same(key) {
                return Some(i);
            }
            i += 1;
        }
        None
    }

    /// The cached token for `key` if it is usable at `now`. The cache is
    /// left as it is.
    pub fn peek(&self, key: &ScopeSet, now: u64) -> (cached: Option<Token>)
        ensures
            match cached {
                Some(token) => usable_token(self@, key@, now) == Some(token@),
                None => usable_token(self@, key@, now) is None,
            },
    {
        proof {
            use_type_invariant(self);
        }
        match self.find(key) {
            Some(i) => {
                proof {
                    lemma_model_at(self.slots@, i as int);
                }
                match &self.slots[i].token {
                    Some(token) => if token.has_expired(now) {
                        None
                    } else {
                        Some(token.duplicate())
                    },
                    None => None,
                }
            },
            None => None,
        }
    }

    /// Whether a refresh for `key` is in flight.
    pub fn is_refreshing(&self, key: &ScopeSet) -> (refreshing: bool)
        ensures
            refreshing == refresh_in_flight(self@, key@),
    {
        proof {
            use_type_invariant(self);
        }
        match self.find(key) {
            Some(i) => {
                proof {
                    lemma_model_at(self.slots@, i as int);
                }
                self.slots[i].waiters.len() > 0
            },
            None => false,
        }
    }

    /// Answers the request of `caller` for `key` at `now`.
    ///
    /// While the cached token is usable it is returned and nothing changes.
    /// Otherwise the caller joins those waiting for the refresh of `key`,
    /// and is told to refresh if it is the first of them, to wait if not.
    pub fn request(&mut self, caller: u64, key: &ScopeSet, now: u64) -> (lookup: Lookup)
        ensures
            lookup@ == request_action(old(self)@, key@, now),
            final(self)@ == after_request(old(self)@, caller, key@, now),
    {
        proof {
            use_type_invariant(&*self);
        }
        match self.peek(key, now) {
            Some(token) => Lookup::Hit(token),
            None => match self.find(key) {
                Some(i) => {
                    proof {
                        lemma_model_at(self.slots@, i as int);
                    }
                    let ghost before = self.slots@;
                    let mut slots: Vec<Slot> = Vec::new();
                    core::mem::swap(&mut self.slots, &mut slots);
                    let Slot { key: held, token, mut waiters } = slots.remove(i);
                    let first = waiters.len() == 0;
                    waiters.push(caller);
                    let slot = Slot { key: held, token, waiters };
                    proof {
                        lemma_model_replace(before, i as int, slot);
                        assert(before.remove(i as int).insert(i as int, slot) =~= before.update(
                            i as int,
                            slot,
                        ));
                    }
                    slots.insert(i, slot);
                    self.slots = slots;
                    if first {
                        Lookup::Refresh
                    } else {
                        Lookup::Wait
                    }
                },
                None => {
                    let mut waiters: Vec<u64> = Vec::new();
                    waiters.push(caller);
                    let slot = Slot { key: key.duplicate(), token: None, waiters };
                    proof {
                        lemma_model_push(self.slots@, slot);
                        assert(slot.content().waiters =~= Seq::<u64>::empty().push(caller));
                    }
                    let mut slots: Vec<Slot> = Vec::new();
                    core::mem::swap(&mut self.slots, &mut slots);
                    slots.push(slot);
                    self.slots = slots;
                    Lookup::Refresh
                },
            },
        }
    }

    /// Ends the refresh of `key` with `outcome` and hands the outcome out
    /// for delivery to every caller that waited for it.
    ///
    /// A token replaces the cached one; a failure leaves the cached one in
    /// place, expired or not. Either way no refresh is in flight any more.
    /// Where none was in flight the cache stays as it is and the outcome
    /// goes to nobody.
    pub fn complete(&mut self, key: &ScopeSet, outcome: Result<Token, Error>) -> (delivery: Delivery)
        ensures
            final(self)@ == after_completion(old(self)@, key@, outcome_view(outcome)),
            delivery.callers@ == slot_of(old(self)@, key@).waiters,
            outcome_view(delivery.outcome) == outcome_view(outcome),
    {
        proof {
            use_type_invariant(&*self);
        }
        match self.find(key) {
            Some(i) => {
                proof {
                    lemma_model_at(self.slots@, i as int);
                }
                if self.slots[i].waiters.len() == 0 {
                    return Delivery { callers: Vec::new(), outcome };
                }
                let ghost before = self.slots@;
                let mut slots: Vec<Slot> = Vec::new();
                core::mem::swap(&mut self.slots, &mut slots);
                let Slot { key: held, token, waiters } = slots.remove(i);
                let installed = match &outcome {
                    Ok(fresh) => Some(fresh.duplicate()),
                    Err(_) => token,
                };
                let slot = Slot { key: held, token: installed, waiters: Vec::new() };
                proof {
                    lemma_model_replace(before, i as int, slot);
                    assert(before.remove(i as int).insert(i as int, slot) =~= before.update(
                        i as int,
                        slot,
                    ));
                }
                slots.insert(i, slot);
                self.slots = slots;
                Delivery { callers: waiters, outcome }
            },
            None => Delivery { callers: Vec::new(), outcome },
        }
    }
}

/// The cache after the `callers` requested `key` one after the other, the
/// caller at position `i` at the instant `nows[i]`.
pub open spec fn after_requests(
    cache: CacheView,
    callers: Seq<u64>,
    key: Seq<Seq<char>>,
    nows: Seq<u64>,
) -> CacheView
    decreases callers.len(),
{
    if callers.len() == 0 {
        cache
    } else {
        after_request(
            after_requests(cache, callers.drop_last(), key, nows.drop_last()),
            callers.last(),
            key,
            nows.last(),
        )
    }
}

/// Callers that find no usable token for `key` queue up behind one another:
/// the cached token stays, the callers join those waiting in their order,
/// and no other scope set is touched.
pub proof fn lemma_callers_queue_up(
    cache: CacheView,
    callers: Seq<u64>,
    key: Seq<Seq<char>>,
    nows: Seq<u64>,
)
    requires
        callers.len() == nows.len(),
        forall|i: int| 0 <= i < nows.len() ==> usable_token(cache, key, #[trigger] nows[i]) is None,
    ensures
        slot_of(after_requests(cache, callers, key, nows), key) == (SlotView {
            token: slot_of(cache, key).token,
            waiters: slot_of(cache, key).waiters + callers,
        }),
        forall|other: Seq<Seq<char>>|
            other != key ==> slot_of(after_requests(cache, callers, key, nows), other) == slot_of(
                cache,
                other,
            ),
    decreases callers.len(),
{
    if callers.len() == 0 {
        assert(slot_of(cache, key).waiters + callers =~= slot_of(cache, key).waiters);
    } else {
        let earlier = after_requests(cache, callers.drop_last(), key, nows.drop_last());
        assert forall|i: int| 0 <= i < nows.drop_last().len() implies usable_token(
            cache,
            key,
            #[trigger] nows.drop_last()[i],
        ) is None by {
            assert(nows.drop_last()[i] == nows[i]);
        }
        lemma_callers_queue_up(cache, callers.drop_last(), key, nows.drop_last());
        assert(usable_token(cache, key, nows[nows.len() - 1]) is None);
        assert(usable_token(earlier, key, nows.last()) is None);
        assert((slot_of(cache, key).waiters + callers.drop_last()).push(callers.last()) =~= slot_of(
            cache,
            key,
        ).waiters + callers);
    }
}

/// Single flight. Where any number of callers request `key` at instants at
/// which the cached token is absent or no longer usable, at most one of
/// them is told to refresh: the first, and only if no refresh was in flight
/// already; every other caller is told to wait. When the refresh is
/// completed, its one outcome goes to all who waited for it, these callers
/// among them in their order; the cache then holds the new token, or on
/// failure still the previous one, and no refresh is in flight.
pub proof fn lemma_single_flight(
    cache: CacheView,
    callers: Seq<u64>,
    key: Seq<Seq<char>>,
    nows: Seq<u64>,
    outcome: Result<TokenView, ErrorView>,
)
    requires
        callers.len() == nows.len(),
        callers.len() > 0,
        forall|i: int| 0 <= i < nows.len() ==> usable_token(cache, key, #[trigger] nows[i]) is None,
    ensures
        forall|i: int|
            0 <= i < callers.len() ==> request_action(
                after_requests(cache, callers.take(i), key, nows.take(i)),
                key,
                #[trigger] nows[i],
            ) == (if i == 0 && !refresh_in_flight(cache, key) {
                LookupView::Refresh
            } else {
                LookupView::Wait
            }),
        slot_of(after_requests(cache, callers, key, nows), key).waiters == slot_of(
            cache,
            key,
        ).waiters + callers,
        slot_of(
            after_completion(after_requests(cache, callers, key, nows), key, outcome),
            key,
        ) == (SlotView {
            token: match outcome {
                Ok(token) => Some(token),
                Err(_) => slot_of(cache, key).token,
            },
            waiters: Seq::empty(),
        }),
{
    assert forall|i: int| 0 <= i < callers.len() implies request_action(
        after_requests(cache, callers.take(i), key, nows.take(i)),
        key,
        #[trigger] nows[i],
    ) == (if i == 0 && !refresh_in_flight(cache, key) {
        LookupView::Refresh
    } else {
        LookupView::Wait
    }) by {
        assert forall|j: int| 0 <= j < nows.take(i).len() implies usable_token(
            cache,
            key,
            #[trigger] nows.take(i)[j],
        ) is None by {
            assert(nows.take(i)[j] == nows[j]);
        }
        lemma_callers_queue_up(cache, callers.take(i), key, nows.take(i));
        assert(usable_token(cache, key, nows[i]) is None);
        assert((slot_of(cache, key).waiters + callers.take(i)).len() == slot_of(
            cache,
            key,
        ).waiters.len() + i);
    }
    lemma_callers_queue_up(cache, callers, key, nows);
    assert((slot_of(cache, key).waiters + callers).len() > 0);
}

/// While the cached token is usable a request is answered with that very
/// token and changes nothing: no refresh is asked for.
pub proof fn lemma_usable_token_is_served(
    cache: CacheView,
    caller: u64,
    key: Seq<Seq<char>>,
    now: u64,
)
    requires
        slot_of(cache, key).token is Some,
        usable_at(slot_of(cache, key).token->Some_0.expires_at, now),
    ensures
        request_action(cache, key, now) == LookupView::Hit(slot_of(cache, key).token->Some_0),
        after_request(cache, caller, key, now) == cache,
{
}

/// Once the cached token is no longer usable and no refresh is in flight,
/// the next request is told to refresh and no request after it is, at
/// whatever instant it arrives, until the refresh has ended; a refresh that
/// ends with a token expiring later than the cached one installs that
/// token.
pub proof fn lemma_refresh_installs_later_token(
    cache: CacheView,
    first: u64,
    key: Seq<Seq<char>>,
    now: u64,
    later: u64,
    fresh: TokenView,
)
    requires
        slot_of(cache, key).token is Some,
        !usable_at(slot_of(cache, key).token->Some_0.expires_at, now),
        !refresh_in_flight(cache, key),
        slot_of(cache, key).token->Some_0.expires_at < fresh.expires_at,
    ensures
        request_action(cache, key, now) == LookupView::Refresh,
        !(request_action(after_request(cache, first, key, now), key, later) is Refresh),
        slot_of(
            after_completion(after_request(cache, first, key, now), key, Ok(fresh)),
            key,
        ).token == Some(fresh),
        slot_of(
            after_completion(after_request(cache, first, key, now), key, Ok(fresh)),
            key,
        ).token->Some_0.expires_at > slot_of(cache, key).token->Some_0.expires_at,
        !refresh_in_flight(
            after_completion(after_request(cache, first, key, now), key, Ok(fresh)),
            key,
        ),
{
}

/// A token issued no earlier than the request that found the cached token
/// unusable, and living longer than the safety margin, expires later than
/// the cached one.
pub proof fn lemma_fresh_token_expires_later(
    cached_expiry: u64,
    requested: u64,
    received: u64,
    lifetime: u64,
)
    requires
        !usable_at(cached_expiry, requested),
        requested <= received,
        lifetime > SAFETY_MARGIN,
    ensures
        cached_expiry < received + lifetime,
{
}

/// A failed refresh leaves the cached token in place and clears the way for
/// the next request to refresh again.
pub proof fn lemma_failed_refresh_can_be_retried(
    cache: CacheView,
    key: Seq<Seq<char>>,
    failure: ErrorView,
    now: u64,
)
    requires
        refresh_in_flight(cache, key),
        usable_token(cache, key, now) is None,
    ensures
        slot_of(after_completion(cache, key, Err(failure)), key).token == slot_of(cache, key).token,
        request_action(after_completion(cache, key, Err(failure)), key, now) == LookupView::Refresh,
{
}

} // verus!
