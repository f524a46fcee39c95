//! What can go wrong while the gateway is configured.

use vstd::prelude::*;

verus! {

/// Why a configuration could not be used.
#[derive(Debug, Clone)]
pub enum OxllmError {
    /// The configuration could not be read, or does not hold together.
    ConfigLoad(String),
    /// The configuration names an environment variable that is not set.
    EnvVarMissing(String),
    /// The configuration is not written as it has to be.
    ConfigParse(String),
}

/// What an `OxllmError` holds.
pub enum ErrorView {
    ConfigLoad(Seq<char>),
    EnvVarMissing(Seq<char>),
    ConfigParse(Seq<char>),
}

impl View for OxllmError {
    type V = ErrorView;

    open spec fn view(&self) -> ErrorView {
        match self {
            OxllmError::ConfigLoad(m) => ErrorView::ConfigLoad(m@),
            OxllmError::EnvVarMissing(name) => ErrorView::EnvVarMissing(name@),
            OxllmError::ConfigParse(m) => ErrorView::ConfigParse(m@),
        }
    }
}

impl ErrorView {
    /// What the error says.
    pub open spec fn says(self) -> Seq<char> {
        match self {
            ErrorView::ConfigLoad(m) => "Configuration error: "@ + m,
            ErrorView::EnvVarMissing(name) => "Missing environment variable: "@ + name,
            ErrorView::ConfigParse(m) => "TOML parse error: "@ + m,
        }
    }
}

impl OxllmError {
    /// The error as text.
    pub fn message(&self) -> (s: String)
        ensures
            s@ == self@.says(),
    {
        match self {
            OxllmError::ConfigLoad(m) => "Configuration error: ".to_owned().concat(m.as_str()),
            OxllmError::EnvVarMissing(name) => "Missing environment variable: ".to_owned().concat(
                name.as_str(),
            ),
            OxllmError::ConfigParse(m) => "TOML parse error: ".to_owned().concat(m.as_str()),
        }
    }
}

/// An error says what it is and what it holds.
pub proof fn law_errors_say_what_they_hold(m: Seq<char>)
    ensures
        ErrorView::ConfigLoad(m).says() == "Configuration error: "@ + m,
        ErrorView::EnvVarMissing(m).says() == "Missing environment variable: "@ + m,
        ErrorView::ConfigParse(m).says() == "TOML parse error: "@ + m,
{
}

} // verus!
