//! How a new configuration takes the place of the old one while the gateway
//! runs.

use vstd::prelude::*;

use crate::config::Config;
use crate::error::{ErrorView, OxllmError};
use crate::json::rendered;
use crate::reply::{
    error_document, error_reply, error_view, message_reply, message_view, JsonReply, JsonView,
};
use crate::state::{build_app_state, initial_state, usable_state, AppState, StateView};

verus! {

/// Why a configuration does not take the place of the old one.
#[derive(Debug)]
pub enum ReloadError {
    /// It could not be loaded.
    Load(String),
    /// It does not hold together.
    Invalid(OxllmError),
    /// No state could be built from it.
    Build(OxllmError),
}

/// What a `ReloadError` says.
pub enum ReloadFailure {
    Load(Seq<char>),
    Invalid(ErrorView),
    Build(ErrorView),
}

impl View for ReloadError {
    type V = ReloadFailure;

    open spec fn view(&self) -> ReloadFailure {
        match self {
            ReloadError::Load(m) => ReloadFailure::Load(m@),
            ReloadError::Invalid(e) => ReloadFailure::Invalid(e@),
            ReloadError::Build(e) => ReloadFailure::Build(e@),
        }
    }
}

impl ReloadFailure {
    /// What a client is told of it.
    pub open spec fn says(self) -> Seq<char> {
        match self {
            ReloadFailure::Load(m) => "Failed to load config: "@ + m,
            ReloadFailure::Invalid(e) => "Config validation failed: "@ + e.says(),
            ReloadFailure::Build(e) => "Failed to build state: "@ + e.says(),
        }
    }
}

/// The state that takes the place of the old one, or why none does.
pub open spec fn reloaded(loaded: Result<Config, String>) -> Result<StateView, ReloadFailure> {
    match loaded {
        Err(m) => Err(ReloadFailure::Load(m@)),
        Ok(config) => match config.complaint() {
            Some(m) => Err(ReloadFailure::Invalid(ErrorView::ConfigLoad(m))),
            None => match initial_state(config) {
                Ok(state) => Ok(state),
                Err(e) => Err(ReloadFailure::Build(e)),
            },
        },
    }
}

/// Builds the state that takes the place of the old one.
pub fn reload(loaded: Result<Config, String>) -> (r: Result<AppState, ReloadError>)
    ensures
        match r {
            Ok(state) => reloaded(loaded) == Ok::<StateView, ReloadFailure>(state@),
            Err(e) => reloaded(loaded) == Err::<StateView, ReloadFailure>(e@),
        },
{
    match loaded {
        Err(m) => Err(ReloadError::Load(m)),
        Ok(config) => match config.validate() {
            Err(e) => Err(ReloadError::Invalid(e)),
            Ok(_) => match build_app_state(config) {
                Ok(state) => Ok(state),
                Err(e) => Err(ReloadError::Build(e)),
            },
        },
    }
}

impl ReloadError {
    /// Says what a client is told of it.
    pub fn message(&self) -> (s: String)
        ensures
            s@ == self@.says(),
    {
        match self {
            ReloadError::Load(m) => "Failed to load config: ".to_owned().concat(m.as_str()),
            ReloadError::Invalid(e) => "Config validation failed: ".to_owned().concat(
                e.message().as_str(),
            ),
            ReloadError::Build(e) => "Failed to build state: ".to_owned().concat(
                e.message().as_str(),
            ),
        }
    }
}

impl ReloadFailure {
    /// What a client is answered.
    pub open spec fn answer(self) -> JsonView {
        error_view(400, "invalid_request_error"@, self.says())
    }
}

/// Answers `POST /reload`: with the state that is to take the place of the old
/// one, or with what the client is told where none does.
pub fn handle_http_reload(loaded: Result<Config, String>) -> (r: Result<AppState, JsonReply>)
    ensures
        match r {
            Ok(state) => reloaded(loaded) == Ok::<StateView, ReloadFailure>(state@),
            Err(reply) => reloaded(loaded) is Err && reply@ == reloaded(loaded)->Err_0.answer(),
        },
{
    match reload(loaded) {
        Ok(state) => Ok(state),
        Err(e) => Err(error_reply(400, "invalid_request_error", e.message())),
    }
}

/// What a client is told once a new state was published, or could not be.
pub open spec fn published_view(published: bool) -> JsonView {
    if published {
        message_view(200, "Configuration reloaded successfully"@)
    } else {
        error_view(500, "internal_error"@, "Failed to send config update"@)
    }
}

/// Tells a client whether the new state was published.
pub fn published_reply(published: bool) -> (r: JsonReply)
    ensures
        r@ == published_view(published),
{
    if published {
        message_reply(200, "Configuration reloaded successfully")
    } else {
        error_reply(500, "internal_error", "Failed to send config update".to_owned())
    }
}

/// A configuration takes the place of the old one if and only if the gateway
/// could be started with it, and with the same state.
pub proof fn law_reload_is_restart(config: Config)
    ensures
        match reloaded(Ok(config)) {
            Ok(state) => usable_state(config) == Ok::<StateView, ErrorView>(state),
            Err(_) => usable_state(config) is Err,
        },
{
}

/// A reload that fails says at which step, and why.
pub proof fn law_failed_reload_says_why(loaded: Result<Config, String>)
    ensures
        loaded is Err ==> reloaded(loaded) is Err && reloaded(loaded)->Err_0.says()
            == "Failed to load config: "@ + loaded->Err_0@,
        loaded is Ok && loaded->Ok_0.complaint() is Some ==> reloaded(loaded) is Err && reloaded(
            loaded,
        )->Err_0.says() == "Config validation failed: Configuration error: "@
            + loaded->Ok_0.complaint()->0,
        loaded is Ok && loaded->Ok_0.complaint() is None && initial_state(loaded->Ok_0) is Err
            ==> reloaded(loaded) is Err && reloaded(loaded)->Err_0.says()
            == "Failed to build state: "@ + initial_state(loaded->Ok_0)->Err_0.says(),
        loaded is Ok && loaded->Ok_0.complaint() is None && initial_state(loaded->Ok_0) is Ok
            ==> reloaded(loaded) is Ok,
{
    reveal_strlit("Config validation failed: ");
    reveal_strlit("Configuration error: ");
    reveal_strlit("Config validation failed: Configuration error: ");
    assert("Config validation failed: "@ + "Configuration error: "@
        =~= "Config validation failed: Configuration error: "@);
    if loaded is Ok && loaded->Ok_0.complaint() is Some {
        let m = loaded->Ok_0.complaint()->0;
        assert("Config validation failed: "@ + ("Configuration error: "@ + m)
            =~= "Config validation failed: "@ + "Configuration error: "@ + m);
    }
}

/// A client is told of success only where the new state was published.
pub proof fn law_published_is_told(published: bool)
    ensures
        published_view(published).status == if published {
            200u16
        } else {
            500u16
        },
        published ==> published_view(published) == message_view(
            200,
            "Configuration reloaded successfully"@,
        ),
        !published ==> published_view(published) == error_view(
            500,
            "internal_error"@,
            "Failed to send config update"@,
        ),
{
}

/// A reload that fails is answered with 400, and with what it says.
pub proof fn law_failed_reload_is_refused(failure: ReloadFailure)
    ensures
        failure.answer().status == 400,
        failure.answer().body == rendered(
            error_document(400, "invalid_request_error"@, failure.says()),
        ),
{
}

} // verus!
