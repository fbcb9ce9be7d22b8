//! The settings of the analysis service, and the order in which the places
//! that may hold them are consulted.
//!
//! Reading the environment and loading files is the caller's part. After each
//! place the caller says what it found, and [`Config::decide`] says whether
//! the settings are complete, which place comes next, or that the search has
//! failed.

use vstd::prelude::*;
use vstd::string::*;

verus! {

/// The settings of the analysis service.
#[derive(Debug, Clone, PartialEq, Eq)]
pub struct Config {
    pub openai_api_key: String,
    pub openai_host: String,
}

/// The places that may hold the settings, in the order in which they are
/// consulted.
#[derive(Debug, PartialEq, Eq, Clone, Copy, Structural)]
pub enum ConfigSource {
    /// The environment of the process as it stands.
    Environment,
    /// The file of the user, in the home directory, loaded into the environment.
    UserFile,
    /// The file in the working directory, loaded into the environment.
    LocalFile,
}

/// What the caller found at a place.
#[derive(Debug, Clone, PartialEq, Eq)]
pub enum SourceReading {
    /// The two settings as the environment holds them once the place was
    /// taken in.
    Settings { api_key: Option<String>, host: Option<String> },
    /// The home directory is not known.
    NoHomeDirectory,
    /// The place holds no file.
    NoFile,
    /// The file is there and could not be loaded.
    Unreadable { reason: String },
}

/// Why there are no settings.
#[derive(Debug, Clone, PartialEq, Eq)]
pub enum ConfigError {
    /// The home directory is not known, so the user's file cannot be looked for.
    NoHomeDirectory,
    /// The user's file is there and could not be loaded.
    UnreadableFile { reason: String },
    /// No place holds the key.
    NotFound,
}

/// What follows from a reading.
#[derive(Debug, Clone, PartialEq, Eq)]
pub enum LoadStep {
    /// The settings are complete.
    Use(Config),
    /// Take in this place and report what it holds.
    Consult(ConfigSource),
    /// The search has failed.
    Fail(ConfigError),
}

/// The step that follows from `reading` at `source`.
///
/// Key and host together settle the search at any place. The environment
/// alone, short of that, leads on to the user's file. There, an unknown home
/// directory and a file that cannot be loaded end the search, and anything
/// else leads on to the local file. At the local file, the last place, the key
/// is enough: a missing host is replaced by the default one, and without a key
/// nothing was found.
pub open spec fn follows(source: ConfigSource, reading: SourceReading, step: LoadStep) -> bool {
    match (source, reading) {
        (_, SourceReading::Settings { api_key: Some(key), host: Some(host) }) => {
            &&& step matches LoadStep::Use(config)
            &&& config.openai_api_key == key
            &&& config.openai_host == host
        },
        (ConfigSource::LocalFile, SourceReading::Settings { api_key: Some(key), host: None }) => {
            &&& step matches LoadStep::Use(config)
            &&& config.openai_api_key == key
            &&& config.openai_host@ == spec_default_host()
        },
        (ConfigSource::LocalFile, _) => step matches LoadStep::Fail(ConfigError::NotFound),
        (ConfigSource::Environment, _) => step matches LoadStep::Consult(ConfigSource::UserFile),
        (ConfigSource::UserFile, SourceReading::NoHomeDirectory) => step matches LoadStep::Fail(
            ConfigError::NoHomeDirectory,
        ),
        (ConfigSource::UserFile, SourceReading::Unreadable { reason }) => {
            &&& step matches LoadStep::Fail(ConfigError::UnreadableFile { reason: because })
            &&& because == reason
        },
        (ConfigSource::UserFile, _) => step matches LoadStep::Consult(ConfigSource::LocalFile),
    }
}

/// The host that is used where none is set.
pub open spec fn spec_default_host() -> Seq<char> {
    "https://api.openai.com"@
}

/// The search ends after three readings at the latest: every step leads to a
/// later place, to the settings or to a failure.
pub proof fn lemma_search_moves_on(source: ConfigSource, reading: SourceReading, step: LoadStep)
    requires
        follows(source, reading, step),
    ensures
        step matches LoadStep::Consult(next) ==> spec_rank(next) > spec_rank(source),
        source == ConfigSource::LocalFile ==> !(step is Consult),
{
}

/// Position of a place in the order of the search.
pub open spec fn spec_rank(source: ConfigSource) -> nat {
    match source {
        ConfigSource::Environment => 0,
        ConfigSource::UserFile => 1,
        ConfigSource::LocalFile => 2,
    }
}

impl Config {
    /// The place that the search starts at.
    pub fn first_source() -> (source: ConfigSource)
        ensures
            source == ConfigSource::Environment,
    {
        ConfigSource::Environment
    }

    /// The host that is used where none is set.
    pub fn default_host() -> (host: &'static str)
        ensures
            host@ == spec_default_host(),
    {
        "https://api.openai.com"
    }

    /// Name of the user's file in the home directory.
    pub fn user_file_name() -> (name: &'static str)
        ensures
            name@ == ".log-inspector.cnf"@,
    {
        ".log-inspector.cnf"
    }

    /// The step that follows from `reading` at `source`.
    pub fn decide(source: ConfigSource, reading: SourceReading) -> (step: LoadStep)
        ensures
            follows(source, reading, step),
    {
        match reading {
            SourceReading::Settings { api_key: Some(key), host: Some(host) } => LoadStep::Use(
                Config { openai_api_key: key, openai_host: host },
            ),
            SourceReading::Settings { api_key: Some(key), host: None } => match source {
                ConfigSource::LocalFile => LoadStep::Use(
                    Config {
                        openai_api_key: key,
                        openai_host: Config::default_host().to_owned(),
                    },
                ),
                ConfigSource::Environment => LoadStep::Consult(ConfigSource::UserFile),
                ConfigSource::UserFile => LoadStep::Consult(ConfigSource::LocalFile),
            },
            SourceReading::Settings { api_key: None, host: _ } => match source {
                ConfigSource::LocalFile => LoadStep::Fail(ConfigError::NotFound),
                ConfigSource::Environment => LoadStep::Consult(ConfigSource::UserFile),
                ConfigSource::UserFile => LoadStep::Consult(ConfigSource::LocalFile),
            },
            SourceReading::NoHomeDirectory => match source {
                ConfigSource::LocalFile => LoadStep::Fail(ConfigError::NotFound),
                ConfigSource::Environment => LoadStep::Consult(ConfigSource::UserFile),
                ConfigSource::UserFile => LoadStep::Fail(ConfigError::NoHomeDirectory),
            },
            SourceReading::NoFile => match source {
                ConfigSource::LocalFile => LoadStep::Fail(ConfigError::NotFound),
                ConfigSource::Environment => LoadStep::Consult(ConfigSource::UserFile),
                ConfigSource::UserFile => LoadStep::Consult(ConfigSource::LocalFile),
            },
            SourceReading::Unreadable { reason } => match source {
                ConfigSource::LocalFile => LoadStep::Fail(ConfigError::NotFound),
                ConfigSource::Environment => LoadStep::Consult(ConfigSource::UserFile),
                ConfigSource::UserFile => LoadStep::Fail(ConfigError::UnreadableFile { reason }),
            },
        }
    }
}

impl ConfigError {
    /// The failure in words.
    pub open spec fn spec_message(&self) -> Seq<char> {
        match self {
            ConfigError::NoHomeDirectory => "Could not find home directory"@,
            ConfigError::UnreadableFile { reason } => reason@,
            ConfigError::NotFound => "No configuration found. Please set environment variables, create ~/.log-inspector.cnf, or provide .env file"@,
        }
    }

    /// The failure in words.
    pub fn message(&self) -> (words: String)
        ensures
            words@ == self.spec_message(),
    {
        match self {
            ConfigError::NoHomeDirectory => "Could not find home directory".to_owned(),
            ConfigError::UnreadableFile { reason } => reason.clone(),
            ConfigError::NotFound => "No configuration found. Please set environment variables, create ~/.log-inspector.cnf, or provide .env file".to_owned(),
        }
    }
}

} // verus!
