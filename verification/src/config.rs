//! Where the settings come from.
//!
//! Settings are merged from a chain of sources. A later source overrides
//! what an earlier one set. Reading the sources is left to the caller; the
//! chain itself, and the settings it must yield, are fixed here.

use crate::text::text_view;
use vstd::prelude::*;
use vstd::string::StringExecFns;

verus! {

/// The file that holds settings for every user of the machine.
pub const SYSTEM_CONFIG_PATH: &'static str = "/etc/hermes/config.toml";

/// The prefix of the environment variables that hold settings.
pub const ENVIRONMENT_PREFIX: &'static str = "HERMES";

/// The settings a run needs before it makes any call.
#[derive(Debug, PartialEq, Eq)]
pub struct Config {
    /// The token of the bot that sends.
    pub token: String,
    /// The chat that everything is sent to.
    pub chat_id: i64,
}

/// One place to read settings from.
#[derive(Debug, PartialEq, Eq)]
pub enum ConfigSource {
    /// A file. A file that is not required may be missing.
    File { path: String, required: bool },
    /// The environment variables that start with `prefix`.
    Environment { prefix: String },
}

/// A source as a mathematical value.
pub enum ConfigSourceView {
    File { path: Seq<char>, required: bool },
    Environment { prefix: Seq<char> },
}

impl View for ConfigSource {
    type V = ConfigSourceView;

    open spec fn view(&self) -> ConfigSourceView {
        match *self {
            ConfigSource::File { path, required } => ConfigSourceView::File {
                path: path@,
                required,
            },
            ConfigSource::Environment { prefix } => ConfigSourceView::Environment {
                prefix: prefix@,
            },
        }
    }
}

/// The views of a chain of sources, in order.
pub open spec fn sources_view(sources: Seq<ConfigSource>) -> Seq<ConfigSourceView> {
    sources.map_values(|source: ConfigSource| source@)
}

/// A file that may be missing, as a chain of one; no file, as an empty chain.
pub open spec fn optional_file(path: Option<Seq<char>>) -> Seq<ConfigSourceView> {
    match path {
        Some(path) => seq![ConfigSourceView::File { path, required: false }],
        None => Seq::empty(),
    }
}

/// The chain of sources, earliest first.
///
/// The system file comes first. The file under the user's home follows, if
/// the user has a home; then the file under the platform's settings
/// directory, if the user has a home and the platform names a directory
/// that leads to another file. A file given on the command line comes after
/// these and must exist. The environment comes last.
pub open spec fn source_chain(
    home: Option<Seq<char>>,
    platform: Option<Seq<char>>,
    explicit: Option<Seq<char>>,
) -> Seq<ConfigSourceView> {
    let system = seq![ConfigSourceView::File { path: SYSTEM_CONFIG_PATH@, required: false }];
    let other = if home is Some && platform != home {
        platform
    } else {
        None
    };
    let given = match explicit {
        Some(path) => seq![ConfigSourceView::File { path, required: true }],
        None => Seq::empty(),
    };
    let environment = seq![ConfigSourceView::Environment { prefix: ENVIRONMENT_PREFIX@ }];
    system + optional_file(home) + optional_file(other) + given + environment
}

/// The chain of sources to read, earliest first.
///
/// `home_path` is the settings file under the user's home and
/// `platform_path` the one under the platform's settings directory, each if
/// the place is known; `explicit` is the file given on the command line.
pub fn config_sources(
    home_path: Option<String>,
    platform_path: Option<String>,
    explicit: Option<String>,
) -> (sources: Vec<ConfigSource>)
    ensures
        sources_view(sources@) == source_chain(
            text_view(home_path),
            text_view(platform_path),
            text_view(explicit),
        ),
{
    let mut sources: Vec<ConfigSource> = Vec::new();
    sources.push(
        ConfigSource::File { path: String::from_str(SYSTEM_CONFIG_PATH), required: false },
    );
    if let Some(home) = home_path {
        let other = match platform_path {
            Some(path) => if path == home {
                None
            } else {
                Some(path)
            },
            None => None,
        };
        sources.push(ConfigSource::File { path: home, required: false });
        if let Some(path) = other {
            sources.push(ConfigSource::File { path, required: false });
        }
    }
    if let Some(path) = explicit {
        sources.push(ConfigSource::File { path, required: true });
    }
    sources.push(ConfigSource::Environment { prefix: String::from_str(ENVIRONMENT_PREFIX) });
    sources
}

} // verus!
