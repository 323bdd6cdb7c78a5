//! Credential resolution: the order in which credential sources are tried.
//!
//! Resolution is a small state machine. Each unsettled state names the
//! outside work to be done next (read a key file, probe the metadata
//! service, read the local user file); the outcome of that work is handed
//! back as an event and leads to the next state. A path that was configured,
//! explicitly or through the environment, wins outright and fails loudly: a
//! key file that cannot be used ends the resolution. Without such a path the
//! environment is probed, and a source that is absent leads on to the next.

use crate::credentials::{
    authorized_user_of,
    key_can_sign,
    service_account_of,
    AuthorizedUserFile,
    AuthorizedUserRecord,
    ServiceAccountFile,
    ServiceAccountKey,
    INCOMPLETE_KEY_FILE,
    INCOMPLETE_USER_FILE,
};
use crate::cache::SlotView;
use crate::error::{Error, ErrorView};
use crate::manager::AuthenticationManager;
use crate::strategy::{CredentialStrategy, StrategyView, SIGNING_FAILED};
use crate::wire::{reply_failure, transport_failure, HttpReply};
use vstd::prelude::*;

verus! {

/// The environment variable that names the path of a service-account key
/// file.
pub const CREDENTIALS_VARIABLE: &'static str = "GOOGLE_APPLICATION_CREDENTIALS";

/// Where the local authorized-user file lies below the user's home
/// directory.
pub const USER_CREDENTIALS_FILE: &'static str =
    ".config/gcloud/application_default_credentials.json";

/// What a [`Resolution`] holds, as mathematical values.
pub enum ResolutionView {
    LoadKeyFile(Seq<char>),
    ProbeMetadata,
    LoadUserFile(ErrorView),
    Selected(StrategyView),
    Failed(ErrorView),
}

/// The state of a credential resolution.
#[derive(Debug)]
pub enum Resolution {
    /// Read the service-account key file at this path.
    LoadKeyFile(String),
    /// Probe the metadata service.
    ProbeMetadata,
    /// Read the local authorized-user file; the metadata probe failed for
    /// the reason held.
    LoadUserFile(Error),
    /// Settled: this strategy is bound.
    Selected(CredentialStrategy),
    /// Settled: no strategy could be bound.
    Failed(Error),
}

impl View for Resolution {
    type V = ResolutionView;

    open spec fn view(&self) -> ResolutionView {
        match self {
            Resolution::LoadKeyFile(path) => ResolutionView::LoadKeyFile(path@),
            Resolution::ProbeMetadata => ResolutionView::ProbeMetadata,
            Resolution::LoadUserFile(failure) => ResolutionView::LoadUserFile(failure@),
            Resolution::Selected(strategy) => ResolutionView::Selected(strategy@),
            Resolution::Failed(failure) => ResolutionView::Failed(failure@),
        }
    }
}

/// The outcome of a piece of outside work done for a resolution.
#[derive(Debug)]
pub enum ResolverEvent {
    /// The key file was read, or could not be read for the reason given.
    KeyFile(Result<ServiceAccountFile, String>),
    /// The metadata service answered the probe, or did not.
    MetadataProbe(HttpReply),
    /// The local user file was read, or could not be read for the reason
    /// given.
    UserFile(Result<AuthorizedUserFile, String>),
}

/// The text of an optional string.
pub open spec fn optional_text(text: Option<String>) -> Option<Seq<char>> {
    match text {
        Some(text) => Some(text@),
        None => None,
    }
}

/// Where a resolution starts: at the key file of the explicit path if one
/// is given, else at the key file the environment names if it names one,
/// else at the metadata probe.
pub open spec fn initial(explicit: Option<Seq<char>>, configured: Option<Seq<char>>) -> ResolutionView {
    match explicit {
        Some(path) => ResolutionView::LoadKeyFile(path),
        None => match configured {
            Some(path) => ResolutionView::LoadKeyFile(path),
            None => ResolutionView::ProbeMetadata,
        },
    }
}

/// What reading a configured key file leads to: the keyed service account,
/// or a failure that ends the resolution. A file that could not be read or
/// lacks a field is a configuration failure; a key that cannot sign is a
/// signing failure.
pub open spec fn after_key_file(outcome: Result<ServiceAccountFile, String>) -> ResolutionView {
    match outcome {
        Ok(file) => match service_account_of(file) {
            Some(key) => if key_can_sign(key) {
                ResolutionView::Selected(StrategyView::KeyedServiceAccount(key))
            } else {
                ResolutionView::Failed(ErrorView::SigningError(SIGNING_FAILED@))
            },
            None => ResolutionView::Failed(ErrorView::ConfigError(INCOMPLETE_KEY_FILE@)),
        },
        Err(detail) => ResolutionView::Failed(ErrorView::ConfigError(detail@)),
    }
}

/// What the metadata probe leads to: the metadata service where it
/// answered with success, else the local user file.
pub open spec fn after_metadata_probe(reply: HttpReply) -> ResolutionView {
    match transport_failure(reply) {
        None => ResolutionView::Selected(StrategyView::MetadataService),
        Some(failure) => ResolutionView::LoadUserFile(failure),
    }
}

/// Why a local user file yields no credential, if it does not.
pub open spec fn user_file_failure(outcome: Result<AuthorizedUserFile, String>) -> Option<ErrorView> {
    match outcome {
        Ok(file) => if authorized_user_of(file) is Some {
            None
        } else {
            Some(ErrorView::ConfigError(INCOMPLETE_USER_FILE@))
        },
        Err(detail) => Some(ErrorView::ConfigError(detail@)),
    }
}

/// What reading the local user file leads to: the authorized user, or the
/// terminal failure that holds both the metadata probe's failure and the
/// user file's.
pub open spec fn after_user_file(
    metadata_failure: ErrorView,
    outcome: Result<AuthorizedUserFile, String>,
) -> ResolutionView {
    match user_file_failure(outcome) {
        None => ResolutionView::Selected(
            StrategyView::AuthorizedUser(authorized_user_of(outcome->Ok_0)->Some_0),
        ),
        Some(failure) => ResolutionView::Failed(
            ErrorView::NoAuthMethod(Box::new(metadata_failure), Box::new(failure)),
        ),
    }
}

/// The state that follows `state` on `event`. An event that does not answer
/// the work the state asks for changes nothing; settled states never change.
pub open spec fn next(state: ResolutionView, event: ResolverEvent) -> ResolutionView {
    match (state, event) {
        (ResolutionView::LoadKeyFile(_), ResolverEvent::KeyFile(outcome)) => after_key_file(outcome),
        (ResolutionView::ProbeMetadata, ResolverEvent::MetadataProbe(reply)) => after_metadata_probe(
            reply,
        ),
        (ResolutionView::LoadUserFile(failure), ResolverEvent::UserFile(outcome)) => after_user_file(
            failure,
            outcome,
        ),
        _ => state,
    }
}

/// The state reached from `state` through `events`, in their order.
pub open spec fn run(state: ResolutionView, events: Seq<ResolverEvent>) -> ResolutionView
    decreases events.len(),
{
    if events.len() == 0 {
        state
    } else {
        next(run(state, events.drop_last()), events.last())
    }
}

impl ResolutionView {
    /// Whether the resolution has ended, with a strategy or a failure.
    pub open spec fn is_settled(self) -> bool {
        self is Selected || self is Failed
    }

    /// Whether the state belongs to a resolution with a configured path:
    /// its key file is to be read, its account is bound, or it failed on
    /// its file or its key.
    pub open spec fn is_configured_path(self) -> bool {
        match self {
            ResolutionView::LoadKeyFile(_) => true,
            ResolutionView::Selected(strategy) => strategy is KeyedServiceAccount,
            ResolutionView::Failed(failure) => failure is ConfigError || failure is SigningError,
            _ => false,
        }
    }
}

/// Begins the resolution of a credential strategy with the explicit path
/// `cred`, if any, and the path `configured` by the environment, if any.
///
/// The state returned names the outside work to be done first; its outcome
/// goes to [`Resolution::step`], and so on until the resolution is settled
/// and [`Resolution::finish`] hands out the manager.
pub fn init(cred: Option<String>, configured: Option<String>) -> (state: Resolution)
    ensures
        state@ == initial(optional_text(cred), optional_text(configured)),
{
    match cred {
        Some(path) => Resolution::LoadKeyFile(path),
        None => match configured {
            Some(path) => Resolution::LoadKeyFile(path),
            None => Resolution::ProbeMetadata,
        },
    }
}

impl Resolution {
    /// Whether the resolution has ended.
    pub fn is_settled(&self) -> (settled: bool)
        ensures
            settled == self@.is_settled(),
    {
        match self {
            Resolution::Selected(_) => true,
            Resolution::Failed(_) => true,
            _ => false,
        }
    }

    /// Takes the outcome of the outside work and moves to the next state.
    pub fn step(self, event: ResolverEvent) -> (state: Resolution)
        ensures
            state@ == next(self@, event),
    {
        match (self, event) {
            (Resolution::LoadKeyFile(_), ResolverEvent::KeyFile(outcome)) => match outcome {
                Ok(file) => match ServiceAccountKey::from_file(file) {
                    Ok(key) => if key.can_sign() {
                        Resolution::Selected(CredentialStrategy::KeyedServiceAccount(key))
                    } else {
                        Resolution::Failed(Error::SigningError(SIGNING_FAILED.to_owned()))
                    },
                    Err(failure) => Resolution::Failed(failure),
                },
                Err(detail) => Resolution::Failed(Error::ConfigError(detail)),
            },
            (Resolution::ProbeMetadata, ResolverEvent::MetadataProbe(reply)) => match reply_failure(
                &reply,
            ) {
                None => Resolution::Selected(CredentialStrategy::MetadataService),
                Some(failure) => Resolution::LoadUserFile(failure),
            },
            (Resolution::LoadUserFile(metadata_failure), ResolverEvent::UserFile(outcome)) => {
                let loaded = match outcome {
                    Ok(file) => AuthorizedUserRecord::from_file(file),
                    Err(detail) => Err(Error::ConfigError(detail)),
                };
                match loaded {
                    Ok(user) => Resolution::Selected(CredentialStrategy::AuthorizedUser(user)),
                    Err(failure) => Resolution::Failed(
                        Error::NoAuthMethod(Box::new(metadata_failure), Box::new(failure)),
                    ),
                }
            },
            (state, _) => state,
        }
    }

    /// The end of the resolution, once it is settled: a manager bound to
    /// the strategy selected, with an empty cache, or the failure.
    pub fn finish(self) -> (end: Option<Result<AuthenticationManager, Error>>)
        ensures
            match end {
                Some(Ok(manager)) => self@ == ResolutionView::Selected(manager@.strategy)
                    && manager@.cache == Map::<Seq<Seq<char>>, SlotView>::empty(),
                Some(Err(failure)) => self@ == ResolutionView::Failed(failure@),
                None => !self@.is_settled(),
            },
    {
        match self {
            Resolution::Selected(strategy) => Some(Ok(AuthenticationManager::new(strategy))),
            Resolution::Failed(failure) => Some(Err(failure)),
            _ => None,
        }
    }
}

/// A settled resolution stays as it is, whatever is reported to it.
pub proof fn lemma_settled_is_final(state: ResolutionView, events: Seq<ResolverEvent>)
    requires
        state.is_settled(),
    ensures
        run(state, events) == state,
    decreases events.len(),
{
    if events.len() > 0 {
        lemma_settled_is_final(state, events.drop_last());
    }
}

/// A configured path wins outright: whatever is reported, a resolution
/// started with an explicit path never probes the metadata service nor
/// reads the local user file, and ends only with that path's account or a
/// configuration failure. The same holds of a path named by the
/// environment where no explicit path is given.
pub proof fn lemma_configured_path_never_probes(
    explicit: Option<Seq<char>>,
    configured: Option<Seq<char>>,
    events: Seq<ResolverEvent>,
)
    requires
        explicit is Some || configured is Some,
    ensures
        run(initial(explicit, configured), events).is_configured_path(),
        !(run(initial(explicit, configured), events) is ProbeMetadata),
        !(run(initial(explicit, configured), events) is LoadUserFile),
    decreases events.len(),
{
    if events.len() > 0 {
        lemma_configured_path_never_probes(explicit, configured, events.drop_last());
    }
}

/// With an explicit path, whatever the environment names, the first report
/// on the key file settles the resolution: the keyed service account of the
/// file is selected where the file holds every field and its key can sign,
/// and every other report on the file is a failure, a configuration
/// failure where the file could not be read or lacks a field.
pub proof fn lemma_explicit_path_settles_on_its_file(
    path: Seq<char>,
    configured: Option<Seq<char>>,
    outcome: Result<ServiceAccountFile, String>,
)
    ensures
        initial(Some(path), configured) == ResolutionView::LoadKeyFile(path),
        next(initial(Some(path), configured), ResolverEvent::KeyFile(outcome)) == after_key_file(
            outcome,
        ),
        after_key_file(outcome).is_settled(),
        outcome is Ok && service_account_of(outcome->Ok_0) is Some && key_can_sign(
            service_account_of(outcome->Ok_0)->Some_0,
        ) ==> after_key_file(outcome) == ResolutionView::Selected(
            StrategyView::KeyedServiceAccount(service_account_of(outcome->Ok_0)->Some_0),
        ),
        outcome is Err || service_account_of(outcome->Ok_0) is None ==> after_key_file(outcome)
            is Failed && after_key_file(outcome)->Failed_0 is ConfigError,
{
}

/// Without a configured path, where the metadata service does not answer
/// with success and the local user file holds every field, the authorized
/// user of that file is selected.
pub proof fn lemma_fallback_selects_authorized_user(reply: HttpReply, file: AuthorizedUserFile)
    requires
        transport_failure(reply) is Some,
        authorized_user_of(file) is Some,
    ensures
        run(
            initial(None, None),
            seq![ResolverEvent::MetadataProbe(reply), ResolverEvent::UserFile(Ok(file))],
        ) == ResolutionView::Selected(
            StrategyView::AuthorizedUser(authorized_user_of(file)->Some_0),
        ),
{
    let events = seq![ResolverEvent::MetadataProbe(reply), ResolverEvent::UserFile(Ok(file))];
    let first = events.drop_last();
    assert(first.drop_last() =~= Seq::<ResolverEvent>::empty());
    assert(first.last() == ResolverEvent::MetadataProbe(reply));
    assert(run(initial(None, None), first.drop_last()) == initial(None, None));
    assert(run(initial(None, None), first) == after_metadata_probe(reply));
}

/// Without a configured path, where the metadata service does not answer
/// with success and the local user file yields no credential, the
/// resolution fails with the aggregate failure, which holds the metadata
/// probe's failure first and the user file's second.
pub proof fn lemma_terminal_failure_holds_both_causes(
    reply: HttpReply,
    outcome: Result<AuthorizedUserFile, String>,
)
    requires
        transport_failure(reply) is Some,
        user_file_failure(outcome) is Some,
    ensures
        run(
            initial(None, None),
            seq![ResolverEvent::MetadataProbe(reply), ResolverEvent::UserFile(outcome)],
        ) == ResolutionView::Failed(
            ErrorView::NoAuthMethod(
                Box::new(transport_failure(reply)->Some_0),
                Box::new(user_file_failure(outcome)->Some_0),
            ),
        ),
{
    let events = seq![ResolverEvent::MetadataProbe(reply), ResolverEvent::UserFile(outcome)];
    let first = events.drop_last();
    assert(first.drop_last() =~= Seq::<ResolverEvent>::empty());
    assert(first.last() == ResolverEvent::MetadataProbe(reply));
    assert(run(initial(None, None), first.drop_last()) == initial(None, None));
    assert(run(initial(None, None), first) == after_metadata_probe(reply));
}

/// A metadata service that answers the probe with success is selected, and
/// the local user file is never read.
pub proof fn lemma_reachable_metadata_selected(reply: HttpReply, events: Seq<ResolverEvent>)
    requires
        transport_failure(reply) is None,
    ensures
        run(next(initial(None, None), ResolverEvent::MetadataProbe(reply)), events)
            == ResolutionView::Selected(StrategyView::MetadataService),
{
    lemma_settled_is_final(ResolutionView::Selected(StrategyView::MetadataService), events);
}

} // verus!
