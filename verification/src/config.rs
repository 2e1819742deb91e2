//! The configuration of the process: what the file says, and what holds
//! where it says nothing.

use vstd::prelude::*;
use vstd::string::StringExecFns;
use crate::text::{chars_of, push_char};

verus! {

/// Milliseconds between two reindex cycles asked for by the clock where the
/// configuration names no interval: thirty minutes.
pub const DEFAULT_REINDEX_INTERVAL_MS: u64 = 1800000;

/// The port that the server listens on.
pub const DEFAULT_PORT: u16 = 4000;

/// How much is logged.
#[derive(Clone, Copy, Debug, Hash, PartialEq, Eq, Structural)]
pub enum ConfigLogLevel {
    Error,
    Warn,
    Info,
    Debug,
    Trace,
}

impl Default for ConfigLogLevel {
    fn default() -> (level: ConfigLogLevel)
        ensures
            level == ConfigLogLevel::Error,
    {
        ConfigLogLevel::Error
    }
}

/// The configuration as the file gives it: every entry may be missing.
#[derive(Clone, Debug, PartialEq, Eq)]
pub struct ConfigParsed {
    pub title: Option<String>,
    pub port: Option<u16>,
    pub data_path: Option<String>,
    pub log_level: Option<ConfigLogLevel>,
    /// In milliseconds.
    pub search_reindex_interval: Option<u64>,
}

impl Default for ConfigParsed {
    fn default() -> (parsed: ConfigParsed)
        ensures
            parsed.title is None,
            parsed.port is None,
            parsed.data_path is None,
            parsed.log_level is None,
            parsed.search_reindex_interval is None,
    {
        ConfigParsed {
            title: None,
            port: None,
            data_path: None,
            log_level: None,
            search_reindex_interval: None,
        }
    }
}

/// The configuration in force.
#[derive(Clone, Debug, PartialEq, Eq)]
pub struct Config {
    title: String,
    port: u16,
    data_path: String,
    log_level: ConfigLogLevel,
    search_reindex_interval: u64,
}

/// What a `Config` holds.
pub struct ConfigView {
    pub title: Seq<char>,
    pub port: u16,
    pub data_path: Seq<char>,
    pub log_level: ConfigLogLevel,
    pub search_reindex_interval: u64,
}

impl View for Config {
    type V = ConfigView;

    closed spec fn view(&self) -> ConfigView {
        ConfigView {
            title: self.title@,
            port: self.port,
            data_path: self.data_path@,
            log_level: self.log_level,
            search_reindex_interval: self.search_reindex_interval,
        }
    }
}

/// The path of `name` below the directory `base`: the two joined by one
/// separator, which is left out where `base` is empty or ends in one.
pub open spec fn child_of(base: Seq<char>, name: Seq<char>) -> Seq<char> {
    if base.len() == 0 || base.last() == '/' {
        base + name
    } else {
        base.push('/') + name
    }
}

/// The directory that holds the data where the configuration names none:
/// `website/` below the user's local data directory, or below `./data`
/// where the platform knows no such directory.
pub open spec fn default_data_path(local_data_dir: Option<Seq<char>>) -> Seq<char> {
    child_of(
        match local_data_dir {
            Some(dir) => dir,
            None => "./data"@,
        },
        "website/"@,
    )
}

/// The file that the configuration is read from: `website/config.toml`
/// below the user's local configuration directory, or below `./config`
/// where the platform knows no such directory.
pub open spec fn config_file_of(local_config_dir: Option<Seq<char>>) -> Seq<char> {
    child_of(
        match local_config_dir {
            Some(dir) => dir,
            None => "./config"@,
        },
        "website/config.toml"@,
    )
}

/// The configuration in force for what the file gives. The port is fixed,
/// whatever the file says.
pub open spec fn resolved(parsed: ConfigParsed, local_data_dir: Option<Seq<char>>) -> ConfigView {
    ConfigView {
        title: match parsed.title {
            Some(title) => title@,
            None => "Welcome"@,
        },
        port: DEFAULT_PORT,
        data_path: match parsed.data_path {
            Some(path) => path@,
            None => default_data_path(local_data_dir),
        },
        log_level: match parsed.log_level {
            Some(level) => level,
            None => ConfigLogLevel::Info,
        },
        search_reindex_interval: match parsed.search_reindex_interval {
            Some(interval) => interval,
            None => DEFAULT_REINDEX_INTERVAL_MS,
        },
    }
}

/// Joins a name to a directory.
pub fn child_path(base: &str, name: &str) -> (path: String)
    ensures
        path@ == child_of(base@, name@),
{
    let chars = chars_of(base);
    let mut path = String::from_str(base);
    if chars.len() > 0 && chars[chars.len() - 1] != '/' {
        push_char(&mut path, '/');
    }
    path.append(name);
    path
}

/// The file that the configuration is read from.
pub fn config_file_path(local_config_dir: Option<String>) -> (path: String)
    ensures
        path@ == config_file_of(crate::page::optional_text(local_config_dir)),
{
    match local_config_dir {
        Some(dir) => child_path(dir.as_str(), "website/config.toml"),
        None => child_path("./config", "website/config.toml"),
    }
}

impl Config {
    /// The configuration in force for what the file gives. `local_data_dir`
    /// is the user's local data directory, where the platform knows one.
    pub fn from_parsed(value: ConfigParsed, local_data_dir: Option<String>) -> (config: Config)
        ensures
            config@ == resolved(value, crate::page::optional_text(local_data_dir)),
    {
        let ConfigParsed { title, port: _, data_path, log_level, search_reindex_interval } = value;
        let title = match title {
            Some(title) => title,
            None => String::from_str("Welcome"),
        };
        let data_path = match data_path {
            Some(path) => path,
            None => match local_data_dir {
                Some(dir) => child_path(dir.as_str(), "website/"),
                None => child_path("./data", "website/"),
            },
        };
        let log_level = match log_level {
            Some(level) => level,
            None => ConfigLogLevel::Info,
        };
        let search_reindex_interval = match search_reindex_interval {
            Some(interval) => interval,
            None => DEFAULT_REINDEX_INTERVAL_MS,
        };
        Config { title, port: DEFAULT_PORT, data_path, log_level, search_reindex_interval }
    }

    /// The configuration in force where the file is missing or cannot be
    /// read: as if it named nothing.
    pub fn fallback(local_data_dir: Option<String>) -> (config: Config)
        ensures
            config@ == resolved(
                ConfigParsed {
                    title: None,
                    port: None,
                    data_path: None,
                    log_level: None,
                    search_reindex_interval: None,
                },
                crate::page::optional_text(local_data_dir),
            ),
    {
        Config::from_parsed(ConfigParsed::default(), local_data_dir)
    }

    /// The title of the site.
    pub fn title(&self) -> (title: &String)
        ensures
            title@ == self@.title,
    {
        &self.title
    }

    /// The port that the server listens on.
    pub fn port(&self) -> (port: &u16)
        ensures
            *port == self@.port,
    {
        &self.port
    }

    /// The directory that holds the data.
    pub fn data_path(&self) -> (path: &String)
        ensures
            path@ == self@.data_path,
    {
        &self.data_path
    }

    /// How much is logged.
    pub fn log_level(&self) -> (level: &ConfigLogLevel)
        ensures
            *level == self@.log_level,
    {
        &self.log_level
    }

    /// Milliseconds between two reindex cycles asked for by the clock.
    pub fn search_reindex_interval(&self) -> (interval: &u64)
        ensures
            *interval == self@.search_reindex_interval,
    {
        &self.search_reindex_interval
    }

    /// The directory that holds the logs.
    pub fn log_path(&self) -> (path: String)
        ensures
            path@ == child_of(self@.data_path, "logs"@),
    {
        child_path(self.data_path.as_str(), "logs")
    }

    /// The directory that holds the documents.
    pub fn pages_path(&self) -> (path: String)
        ensures
            path@ == child_of(self@.data_path, "pages"@),
    {
        child_path(self.data_path.as_str(), "pages")
    }

    /// The root directory of the search index.
    pub fn search_path(&self) -> (path: String)
        ensures
            path@ == child_of(self@.data_path, "search"@),
    {
        child_path(self.data_path.as_str(), "search")
    }
}

} // verus!
