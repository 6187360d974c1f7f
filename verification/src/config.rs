//! Process-wide settings, loaded once at startup and passed on explicitly.

use vstd::prelude::*;

verus! {

/// The settings of the sweeper.
#[derive(Clone, Debug, PartialEq, Eq)]
pub struct Config {
    /// Connection string of the database; required to run.
    pub database_url: Option<String>,
    /// Period of the sweep timer, in milliseconds.
    pub sweep_interval_ms: u64,
    /// Region of both transport clients.
    pub aws_region: String,
    /// Upper bound on the rows claimed per topic in one sweep.
    pub batch_size: i32,
}

/// Why a set of settings cannot be used.
#[derive(Clone, Copy, Debug, PartialEq, Eq, Structural)]
pub enum ConfigError {
    /// No database connection string is set.
    MissingDatabaseUrl,
}

/// The period of the sweep timer, in milliseconds, where none is configured.
pub open spec fn default_sweep_interval_spec() -> u64 {
    5000
}

/// The period of the sweep timer, in milliseconds, where none is configured.
pub fn default_sweep_interval() -> (interval: u64)
    ensures
        interval == default_sweep_interval_spec(),
{
    5000
}

impl Config {
    /// Accepts the settings as they were read for the running process: the
    /// database connection string must be there.
    pub fn load(settings: Config) -> (r: Result<Config, ConfigError>)
        ensures
            settings.database_url is Some ==> r == Ok::<Config, ConfigError>(settings),
            settings.database_url is None ==> r == Err::<Config, ConfigError>(
                ConfigError::MissingDatabaseUrl,
            ),
    {
        if settings.database_url.is_none() {
            return Err(ConfigError::MissingDatabaseUrl);
        }
        Ok(settings)
    }

    /// Accepts the settings as they were read for a test run: nothing is
    /// demanded of them.
    pub fn load_test(settings: Config) -> (r: Result<Config, ConfigError>)
        ensures
            r == Ok::<Config, ConfigError>(settings),
    {
        Ok(settings)
    }

    /// The settings of a process: the timer's period falls back on the
    /// default where none is given.
    pub fn from_values(
        database_url: Option<String>,
        sweep_interval_ms: Option<u64>,
        aws_region: String,
        batch_size: i32,
    ) -> (config: Config)
        ensures
            config.database_url == database_url,
            config.sweep_interval_ms == match sweep_interval_ms {
                Some(ms) => ms,
                None => default_sweep_interval_spec(),
            },
            config.aws_region == aws_region,
            config.batch_size == batch_size,
    {
        let interval: u64 = match sweep_interval_ms {
            Some(ms) => ms,
            None => default_sweep_interval(),
        };
        Config { database_url, sweep_interval_ms: interval, aws_region, batch_size }
    }

    /// The database connection string. It must be set, as it is once `load`
    /// has accepted the settings.
    pub fn database_url(&self) -> (url: &str)
        requires
            self.database_url is Some,
        ensures
            url@ == self.database_url->0@,
    {
        match &self.database_url {
            Some(url) => url.as_str(),
            None => "",
        }
    }
}

} // verus!
