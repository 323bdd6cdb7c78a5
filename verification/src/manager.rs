//! The authentication manager: one bound strategy and its token cache.
//!
//! The manager answers a request for a token with what is to happen next:
//! the token itself while the cached one is usable, the request to send for
//! the caller that is to refresh, or the instruction to wait for the refresh
//! in flight. Whoever sent the request hands the reply back, and the manager
//! installs the token and names the callers the outcome goes to.

use crate::cache::{
    after_completion,
    after_request,
    refresh_in_flight,
    request_action,
    slot_of,
    usable_token,
    CacheView,
    Delivery,
    Lookup,
    LookupView,
    SlotView,
    TokenCache,
};
use crate::credentials::AuthorizedUserView;
use crate::error::{Error, ErrorView};
use crate::scope::{
    lemma_normal_form_exists,
    lemma_scope_order_irrelevant,
    normal_form,
    texts,
    ScopeSet,
};
use crate::strategy::{
    can_issue_at,
    issue_request,
    refresh_request,
    CredentialStrategy,
    StrategyView,
};
use crate::token::{Token, TokenView};
use crate::wire::{
    outcome_view,
    reply_outcome,
    token_from_reply,
    HttpReply,
    HttpRequest,
    RequestView,
    TokenBody,
};
use vstd::pervasive::unreached;
use vstd::prelude::*;

verus! {

/// What an [`AuthenticationManager`] holds, as mathematical values.
pub struct ManagerView {
    pub strategy: StrategyView,
    pub cache: CacheView,
}

/// What a [`Step`] holds, as mathematical values.
pub enum StepView {
    Ready(TokenView),
    Issue(RequestView),
    Wait,
    Failed(ErrorView),
}

/// What is to happen next for a caller that asked for a token.
#[derive(Debug)]
pub enum Step {
    /// The token asked for.
    Ready(Token),
    /// The caller is to send this request and to hand the reply to
    /// [`AuthenticationManager::complete`].
    Issue(HttpRequest),
    /// The caller is to wait for the outcome of the refresh in flight.
    Wait,
    /// The refresh could not be begun, for the reason held; none is in
    /// flight.
    Failed(Error),
}

impl View for Step {
    type V = StepView;

    open spec fn view(&self) -> StepView {
        match self {
            Step::Ready(token) => StepView::Ready(token@),
            Step::Issue(request) => StepView::Issue(request@),
            Step::Wait => StepView::Wait,
            Step::Failed(failure) => StepView::Failed(failure@),
        }
    }
}

/// The answer to a request for `scopes` at `now`: the cached token while it
/// is usable; else to wait where a refresh is in flight; else, for the
/// caller that is to refresh, the request that issues a token for the
/// scopes in the order requested, or the failure to build it.
pub open spec fn step_for(manager: ManagerView, scopes: Seq<Seq<char>>, now: u64) -> StepView {
    match request_action(manager.cache, normal_form(scopes), now) {
        LookupView::Hit(token) => StepView::Ready(token),
        LookupView::Wait => StepView::Wait,
        LookupView::Refresh => match issue_request(manager.strategy, scopes, now) {
            Ok(request) => StepView::Issue(request),
            Err(failure) => StepView::Failed(failure),
        },
    }
}

/// The cache after `caller` asked for `scopes` at `now`: as the cache
/// leaves it after the request, and where the refresh could not be begun,
/// after that refresh was ended with the failure.
pub open spec fn cache_after_request(
    manager: ManagerView,
    caller: u64,
    scopes: Seq<Seq<char>>,
    now: u64,
) -> CacheView {
    match step_for(manager, scopes, now) {
        StepView::Failed(failure) => after_completion(
            after_request(manager.cache, caller, normal_form(scopes), now),
            normal_form(scopes),
            Err(failure),
        ),
        _ => after_request(manager.cache, caller, normal_form(scopes), now),
    }
}

/// The facade over one bound credential strategy and its token cache.
pub struct AuthenticationManager {
    strategy: CredentialStrategy,
    cache: TokenCache,
}

impl View for AuthenticationManager {
    type V = ManagerView;

    closed spec fn view(&self) -> ManagerView {
        ManagerView { strategy: self.strategy@, cache: self.cache@ }
    }
}

impl AuthenticationManager {
    /// A manager bound to `strategy`, with an empty cache.
    pub fn new(strategy: CredentialStrategy) -> (manager: AuthenticationManager)
        ensures
            manager@ == (ManagerView {
                strategy: strategy@,
                cache: Map::<Seq<Seq<char>>, SlotView>::empty(),
            }),
    {
        AuthenticationManager { strategy, cache: TokenCache::new() }
    }

    /// The strategy the manager is bound to.
    pub fn strategy(&self) -> (strategy: &CredentialStrategy)
        ensures
            strategy@ == self@.strategy,
    {
        &self.strategy
    }

    /// Answers the request of `caller` for a token for `scopes` at `now`.
    ///
    /// The scopes are normalised into the cache key, so the order in which
    /// they are named does not matter for what is cached; an issue names
    /// them in the order requested.
    pub fn get_token(&mut self, caller: u64, scopes: &[&str], now: u64) -> (step: Step)
        requires
            can_issue_at(old(self)@.strategy, now),
        ensures
            step@ == step_for(old(self)@, texts(scopes@), now),
            final(self)@.strategy == old(self)@.strategy,
            final(self)@.cache == cache_after_request(old(self)@, caller, texts(scopes@), now),
    {
        let key = ScopeSet::new(scopes);
        match self.cache.request(caller, &key, now) {
            Lookup::Hit(token) => Step::Ready(token),
            Lookup::Wait => Step::Wait,
            Lookup::Refresh => match self.strategy.begin_issue(scopes, now) {
                Ok(request) => Step::Issue(request),
                Err(failure) => {
                    let delivery = self.cache.complete(&key, Err(failure));
                    match delivery.outcome {
                        Err(failure) => Step::Failed(failure),
                        Ok(_) => unreached(),
                    }
                },
            },
        }
    }

    /// Ends the refresh for `scopes` with the reply received at `now`, and
    /// hands the outcome out for delivery to every caller that waited for
    /// it.
    pub fn complete(&mut self, scopes: &[&str], reply: HttpReply, now: u64) -> (delivery: Delivery)
        ensures
            final(self)@.strategy == old(self)@.strategy,
            final(self)@.cache == after_completion(
                old(self)@.cache,
                normal_form(texts(scopes@)),
                reply_outcome(reply, normal_form(texts(scopes@)), now),
            ),
            delivery.callers@ == slot_of(old(self)@.cache, normal_form(texts(scopes@))).waiters,
            outcome_view(delivery.outcome) == reply_outcome(
                reply,
                normal_form(texts(scopes@)),
                now,
            ),
    {
        let key = ScopeSet::new(scopes);
        let outcome = token_from_reply(reply, key.duplicate(), now);
        self.cache.complete(&key, outcome)
    }
}

/// Requests that name the same scopes, in whatever order and however often,
/// are answered from the same cache entry.
pub proof fn lemma_same_scopes_same_entry(
    cache: CacheView,
    first: Seq<Seq<char>>,
    second: Seq<Seq<char>>,
    now: u64,
)
    requires
        first.to_set() == second.to_set(),
    ensures
        normal_form(first) == normal_form(second),
        request_action(cache, normal_form(first), now) == request_action(
            cache,
            normal_form(second),
            now,
        ),
{
    lemma_normal_form_exists(first);
    lemma_normal_form_exists(second);
    lemma_scope_order_irrelevant(first, second, normal_form(first), normal_form(second));
}

/// A manager bound to an authorized user, asked for scopes it holds no
/// usable token for while no refresh is in flight, has the caller exchange
/// the user's refresh token; a successful answer yields the token answered,
/// for the scope set asked for, expiring the answered lifetime after the
/// answer was received.
pub proof fn lemma_authorized_user_exchanges_refresh_token(
    user: AuthorizedUserView,
    cache: CacheView,
    scopes: Seq<Seq<char>>,
    now: u64,
    status: u16,
    value: String,
    lifetime: u64,
    received: u64,
)
    requires
        usable_token(cache, normal_form(scopes), now) is None,
        !refresh_in_flight(cache, normal_form(scopes)),
        200 <= status < 300,
        received + lifetime <= u64::MAX,
    ensures
        step_for(
            ManagerView { strategy: StrategyView::AuthorizedUser(user), cache },
            scopes,
            now,
        ) == StepView::Issue(refresh_request(user)),
        reply_outcome(
            HttpReply::Answered {
                status,
                body: Some(TokenBody { access_token: Some(value), expires_in: Some(lifetime) }),
            },
            normal_form(scopes),
            received,
        ) == Ok::<TokenView, ErrorView>(
            TokenView {
                value: value@,
                scopes: normal_form(scopes),
                expires_at: (received + lifetime) as u64,
            },
        ),
{
}

} // verus!
