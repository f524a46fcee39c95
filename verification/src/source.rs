//! Where a configuration is loaded from.

use vstd::prelude::*;

use std::path::PathBuf;

use crate::config::Config;
use crate::error::{ErrorView, OxllmError};
use crate::expand::{env_value, expand_env_vars, expanded, lookup, EnvVar};

verus! {

/// `std::path::PathBuf`, the path of a file.
#[verifier::external_type_specification]
#[verifier::external_body]
pub struct ExPathBuf(PathBuf);

/// Where a reload should load configuration from.
pub enum ConfigSource {
    File(PathBuf),
    Env,
}

/// What is to be done next to get at a configuration.
pub enum LoadStep<'a> {
    /// Read the file at this path.
    ReadPath(&'a PathBuf),
    /// Read the file of this name.
    ReadNamed(&'a String),
    /// Parse this text, in which no variables are left.
    Parse(String),
}

/// What is to be done next, or why nothing can be.
pub enum LoadView {
    ReadPath(PathBuf),
    ReadNamed(Seq<char>),
    Parse(Seq<char>),
    Fail(ErrorView),
}

impl<'a> LoadStep<'a> {
    /// What this step is.
    pub open spec fn says(self) -> LoadView {
        match self {
            LoadStep::ReadPath(p) => LoadView::ReadPath(*p),
            LoadStep::ReadNamed(s) => LoadView::ReadNamed(s@),
            LoadStep::Parse(s) => LoadView::Parse(s@),
        }
    }
}

/// Where the environment says that the configuration is: the variable that
/// holds its text goes before the one that names its file.
pub open spec fn env_step(env: Seq<EnvVar>) -> LoadView {
    match lookup(env, "OXLLM_CONFIG_TOML"@) {
        Some(text) => match expanded(text, env) {
            Ok(s) => LoadView::Parse(s),
            Err(e) => LoadView::Fail(e),
        },
        None => match lookup(env, "OXLLM_CONFIG"@) {
            Some(path) => LoadView::ReadNamed(path),
            None => LoadView::Fail(
                ErrorView::ConfigLoad("Neither OXLLM_CONFIG_TOML nor OXLLM_CONFIG is set"@),
            ),
        },
    }
}

/// What is to be parsed of a file that has been read, or could not be.
pub open spec fn file_text(content: Result<Seq<char>, Seq<char>>, env: Seq<EnvVar>) -> Result<
    Seq<char>,
    ErrorView,
> {
    match content {
        Ok(text) => expanded(text, env),
        Err(why) => Err(ErrorView::ConfigLoad("Failed to read config file: "@ + why)),
    }
}

/// What the reading of a file came to.
pub open spec fn content_view(content: Result<String, String>) -> Result<Seq<char>, Seq<char>> {
    match content {
        Ok(text) => Ok(text@),
        Err(why) => Err(why@),
    }
}

/// The text of a file is parsed with its variables put in; a file that cannot be
/// read is reported, and why it cannot.
pub proof fn law_file_is_expanded(text: Seq<char>, env: Seq<EnvVar>)
    ensures
        file_text(Ok(text), env) == expanded(text, env),
        file_text(Err(text), env) == Err::<Seq<char>, ErrorView>(
            ErrorView::ConfigLoad("Failed to read config file: "@ + text),
        ),
{
}

impl Config {
    /// What is to be parsed, once a configuration file has been read, or could
    /// not be.
    pub fn load_from_file(content: Result<String, String>, env: &Vec<EnvVar>) -> (r: Result<
        String,
        OxllmError,
    >)
        ensures
            match r {
                Ok(s) => file_text(content_view(content), env@) == Ok::<Seq<char>, ErrorView>(s@),
                Err(e) => file_text(content_view(content), env@) == Err::<Seq<char>, ErrorView>(e@),
            },
    {
        match content {
            Ok(text) => expand_env_vars(text.as_str(), env),
            Err(why) => Err(
                OxllmError::ConfigLoad(
                    "Failed to read config file: ".to_owned().concat(why.as_str()),
                ),
            ),
        }
    }

    /// How to get at the configuration that the environment gives.
    ///
    /// `OXLLM_CONFIG_TOML` is its text, and wins. `OXLLM_CONFIG` is the path of
    /// a file.
    pub fn from_env<'a>(env: &'a Vec<EnvVar>) -> (r: Result<LoadStep<'a>, OxllmError>)
        ensures
            match r {
                Ok(step) => env_step(env@) == step.says(),
                Err(e) => env_step(env@) == LoadView::Fail(e@),
            },
    {
        match env_value(env, "OXLLM_CONFIG_TOML") {
            Some(text) => match expand_env_vars(text.as_str(), env) {
                Ok(s) => Ok(LoadStep::Parse(s)),
                Err(e) => Err(e),
            },
            None => match env_value(env, "OXLLM_CONFIG") {
                Some(path) => Ok(LoadStep::ReadNamed(path)),
                None => Err(
                    OxllmError::ConfigLoad(
                        "Neither OXLLM_CONFIG_TOML nor OXLLM_CONFIG is set".to_owned(),
                    ),
                ),
            },
        }
    }
}

impl ConfigSource {
    /// How to get at the configuration, or why that is not known.
    pub fn load<'a>(&'a self, env: &'a Vec<EnvVar>) -> (r: Result<LoadStep<'a>, String>)
        ensures
            match self {
                ConfigSource::File(path) => r is Ok && r->Ok_0.says() == LoadView::ReadPath(*path),
                ConfigSource::Env => match r {
                    Ok(step) => env_step(env@) == step.says(),
                    Err(m) => env_step(env@) is Fail && m@ == env_step(env@)->Fail_0.says(),
                },
            },
    {
        match self {
            ConfigSource::File(path) => Ok(LoadStep::ReadPath(path)),
            ConfigSource::Env => match Config::from_env(env) {
                Ok(step) => Ok(step),
                Err(e) => Err(e.message()),
            },
        }
    }
}

/// The variable that holds the configuration's text goes before the one that
/// names its file: what that says does not matter then. The text is parsed with
/// its variables put in.
pub proof fn law_text_goes_before_file(env: Seq<EnvVar>, text: Seq<char>)
    requires
        lookup(env, "OXLLM_CONFIG_TOML"@) == Some(text),
    ensures
        expanded(text, env) is Ok ==> env_step(env) == LoadView::Parse(expanded(text, env)->Ok_0),
        expanded(text, env) is Err ==> env_step(env) == LoadView::Fail(expanded(text, env)->Err_0),
{
}

/// Without that text, the file that is named is read; with neither, nothing can
/// be loaded.
pub proof fn law_file_goes_before_nothing(env: Seq<EnvVar>)
    requires
        lookup(env, "OXLLM_CONFIG_TOML"@) is None,
    ensures
        lookup(env, "OXLLM_CONFIG"@) is Some ==> env_step(env) == LoadView::ReadNamed(
            lookup(env, "OXLLM_CONFIG"@)->0,
        ),
        lookup(env, "OXLLM_CONFIG"@) is None ==> env_step(env) == LoadView::Fail(
            ErrorView::ConfigLoad("Neither OXLLM_CONFIG_TOML nor OXLLM_CONFIG is set"@),
        ),
{
}

} // verus!
