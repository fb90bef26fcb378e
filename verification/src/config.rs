//! The configuration of the shell.

use crate::paths::{expand_path, Platform};
use vstd::prelude::*;

verus! {

/// The configuration as far as it was given. What is missing has a default.
#[derive(Clone, Debug)]
pub struct DshConfig {
    /// The port of the service.
    pub port: Option<u16>,
    /// The longest wait for the service, in milliseconds.
    pub max_wait_ms: Option<u64>,
    /// The time between two probes, in milliseconds.
    pub poll_ms: Option<u64>,
    /// The template of the path of the user data.
    pub data_home: Option<String>,
}

impl Default for DshConfig {
    fn default() -> (config: DshConfig)
        ensures
            config.port is None,
            config.max_wait_ms is None,
            config.poll_ms is None,
            config.data_home is None,
    {
        DshConfig { port: None, max_wait_ms: None, poll_ms: None, data_home: None }
    }
}

impl DshConfig {
    /// The port in force.
    pub open spec fn port_in_force(self) -> u16 {
        match self.port {
            Some(port) => port,
            None => 3090,
        }
    }

    /// The longest wait in force, in milliseconds.
    pub open spec fn max_wait_in_force(self) -> u64 {
        match self.max_wait_ms {
            Some(ms) => ms,
            None => 90_000,
        }
    }

    /// The time between two probes in force, in milliseconds.
    pub open spec fn poll_in_force(self) -> u64 {
        match self.poll_ms {
            Some(ms) => ms,
            None => 800,
        }
    }

    /// The template of the data directory in force.
    pub open spec fn data_home_in_force(self) -> Seq<char> {
        match self.data_home {
            Some(template) => template@,
            None => "~/.dsh"@,
        }
    }

    pub fn port(&self) -> (port: u16)
        ensures
            port == self.port_in_force(),
    {
        match self.port {
            Some(port) => port,
            None => 3090,
        }
    }

    pub fn max_wait_ms(&self) -> (ms: u64)
        ensures
            ms == self.max_wait_in_force(),
    {
        match self.max_wait_ms {
            Some(ms) => ms,
            None => 90_000,
        }
    }

    pub fn poll_ms(&self) -> (ms: u64)
        ensures
            ms == self.poll_in_force(),
    {
        match self.poll_ms {
            Some(ms) => ms,
            None => 800,
        }
    }

    /// The directory of the user data. A directory that is not known is left in
    /// it as it is written.
    pub fn data_home(
        &self,
        platform: Platform,
        home: Option<&str>,
        appdata: Option<&str>,
    ) -> (path: String)
        ensures
            path@ == crate::paths::expanded(
                self.data_home_in_force(),
                platform,
                crate::paths::str_view(home),
                crate::paths::str_view(appdata),
            ),
    {
        match &self.data_home {
            Some(template) => expand_path(template.as_str(), platform, home, appdata),
            None => expand_path("~/.dsh", platform, home, appdata),
        }
    }
}

/// Without a setting the data lie in `.dsh` in the home directory, whatever that
/// is; on Windows this is said where the outcome has no `%APPDATA%`. Where the
/// home directory is not known, the path is `~/.dsh` as it is written.
pub proof fn default_data_home(
    config: DshConfig,
    platform: Platform,
    home: Option<Seq<char>>,
    appdata: Option<Seq<char>>,
)
    requires
        config.data_home is None,
        platform == Platform::Windows && home is Some ==> crate::text::position(
            home->0 + "/.dsh"@,
            "%APPDATA%"@,
            0,
        ) is None,
    ensures
        crate::paths::expanded(config.data_home_in_force(), platform, home, appdata) == (
        match home {
            Some(home) => home + "/.dsh"@,
            None => "~/.dsh"@,
        }),
{
    reveal_strlit("~/.dsh");
    reveal_strlit("~");
    reveal_strlit("/.dsh");
    assert("~/.dsh"@ == "~"@ + "/.dsh"@);
    match home {
        Some(home) => {
            crate::paths::home_prefix_is_expanded("/.dsh"@, platform, home, appdata);
        },
        None => {
            reveal_strlit("%APPDATA%");
            assert("~/.dsh"@.len() < "%APPDATA%"@.len());
        },
    }
}

/// The configuration in use: the packaged one if it could be read, else the one
/// of the development tree, else the defaults.
pub fn load_config(packaged: Option<DshConfig>, development: Option<DshConfig>) -> (config:
    DshConfig)
    ensures
        match (packaged, development) {
            (Some(found), _) => config == found,
            (None, Some(found)) => config == found,
            (None, None) => {
                &&& config.port is None
                &&& config.max_wait_ms is None
                &&& config.poll_ms is None
                &&& config.data_home is None
            },
        },
{
    match packaged {
        Some(found) => found,
        None => match development {
            Some(found) => found,
            None => DshConfig::default(),
        },
    }
}

/// What is configured is in force, whatever it is, and only what is not configured
/// has its default: port 3090, a wait of at most 90000 milliseconds, 800
/// milliseconds between two probes.
pub proof fn configured_values_are_in_force(
    config: DshConfig,
    port: u16,
    max_wait_ms: u64,
    poll_ms: u64,
)
    requires
        call_ensures(DshConfig::port, (&config,), port),
        call_ensures(DshConfig::max_wait_ms, (&config,), max_wait_ms),
        call_ensures(DshConfig::poll_ms, (&config,), poll_ms),
    ensures
        config.port is Some ==> config.port == Some(port),
        config.max_wait_ms is Some ==> config.max_wait_ms == Some(max_wait_ms),
        config.poll_ms is Some ==> config.poll_ms == Some(poll_ms),
        config.port is None ==> port == 3090,
        config.max_wait_ms is None ==> max_wait_ms == 90_000,
        config.poll_ms is None ==> poll_ms == 800,
{
}

/// The data directory is what its template expands to: the configured template,
/// else that of the home directory.
pub proof fn data_home_is_the_expanded_template(
    config: DshConfig,
    platform: Platform,
    home: Option<&str>,
    appdata: Option<&str>,
    path: String,
    template: &str,
    expanded: String,
)
    requires
        call_ensures(DshConfig::data_home, (&config, platform, home, appdata), path),
        call_ensures(expand_path, (template, platform, home, appdata), expanded),
        match config.data_home {
            Some(configured) => template@ == configured@,
            None => template@ == "~/.dsh"@,
        },
    ensures
        path@ == expanded@,
{
}

/// A configuration that could be read is used whole: the packaged one before that
/// of the development tree. Without either nothing is configured.
pub proof fn packaged_configuration_goes_first(
    packaged: Option<DshConfig>,
    development: Option<DshConfig>,
    config: DshConfig,
)
    requires
        call_ensures(load_config, (packaged, development), config),
    ensures
        packaged is Some ==> packaged == Some(config),
        packaged is None && development is Some ==> development == Some(config),
        packaged is None && development is None ==> config.port is None && config.max_wait_ms is None
            && config.poll_ms is None && config.data_home is None,
{
}

} // verus!
