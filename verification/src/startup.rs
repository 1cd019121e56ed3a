//! Startup decisions: defaults, addresses, and how a bad config is reported.

use vstd::prelude::*;

use crate::config::Config;
use crate::error::ConfigError;
use crate::store::DEFAULT_KEY_PREFIX;
use crate::text::push_natural;

verus! {

/// Seconds between checks of the feature store where the config gives none.
pub const DEFAULT_HEALTH_INTERVAL_SECS: u64 = 10;

/// Pool size where the number of processors is not known.
pub const FALLBACK_POOL_SIZE: usize = 4;

/// The advice at the end of most reports.
pub open spec fn init_hint() -> Seq<char> {
    "\n  hint:   run `axon init` to generate a valid starter config"@
}

/// The report on a config that could not be loaded from `path`, in which `min`
/// and `max` stand for the bounds of an empty range.
pub open spec fn config_report(
    path: Seq<char>,
    error: ConfigError,
    min: Seq<char>,
    max: Seq<char>,
) -> Seq<char> {
    match error {
        ConfigError::Io(cause) => "could not read config file '"@ + path + "'\n  cause:  "@ + cause@
            + "\n  hint:   check the path is correct and the file is readable"@,
        ConfigError::Parse(cause) => "config file '"@ + path
            + "' contains invalid TOML\n  cause:  "@ + cause@ + init_hint(),
        ConfigError::Invalid { field, reason } => "config file '"@ + path
            + "' failed validation\n  field:  "@ + field@ + "\n  reason: "@ + reason.text(
            min,
            max,
        ) + init_hint(),
    }
}

/// Reports a config that could not be loaded, with a hint at what to do.
///
/// `min` and `max` are the decimal renderings of the bounds of an empty range,
/// and are not looked at for any other error.
pub fn report_config_error(path: &str, error: &ConfigError, min: &str, max: &str) -> (report:
    String)
    ensures
        report@ == config_report(path@, *error, min@, max@),
{
    let mut out = String::new();
    match error {
        ConfigError::Io(cause) => {
            out.append("could not read config file '");
            out.append(path);
            out.append("'\n  cause:  ");
            out.append(cause.as_str());
            out.append("\n  hint:   check the path is correct and the file is readable");
        },
        ConfigError::Parse(cause) => {
            out.append("config file '");
            out.append(path);
            out.append("' contains invalid TOML\n  cause:  ");
            out.append(cause.as_str());
            out.append("\n  hint:   run `axon init` to generate a valid starter config");
        },
        ConfigError::Invalid { field, reason } => {
            out.append("config file '");
            out.append(path);
            out.append("' failed validation\n  field:  ");
            out.append(field);
            out.append("\n  reason: ");
            out.append(reason.render(min, max).as_str());
            out.append("\n  hint:   run `axon init` to generate a valid starter config");
        },
    }
    assert(out@ =~= config_report(path@, *error, min@, max@));
    out
}

/// The size of a pool: the configured one, otherwise the number of processors,
/// otherwise a fixed size.
pub fn pool_size(configured: Option<usize>, processors: Option<usize>) -> (size: usize)
    ensures
        size == (match (configured, processors) {
            (Some(size), _) => size,
            (None, Some(size)) => size,
            (None, None) => FALLBACK_POOL_SIZE,
        }),
{
    match configured {
        Some(size) => size,
        None => match processors {
            Some(size) => size,
            None => FALLBACK_POOL_SIZE,
        },
    }
}

impl Config {
    /// The prefix of feature keys.
    pub fn key_prefix(&self) -> (prefix: &str)
        ensures
            prefix@ == (match self.store.key_prefix {
                Some(prefix) => prefix@,
                None => DEFAULT_KEY_PREFIX@,
            }),
    {
        match &self.store.key_prefix {
            Some(prefix) => prefix.as_str(),
            None => DEFAULT_KEY_PREFIX,
        }
    }

    /// Seconds between checks of the feature store.
    pub fn health_interval_secs(&self) -> (secs: u64)
        ensures
            secs == (match self.store.health_check_interval_secs {
                Some(secs) => secs,
                None => DEFAULT_HEALTH_INTERVAL_SECS,
            }),
    {
        match self.store.health_check_interval_secs {
            Some(secs) => secs,
            None => DEFAULT_HEALTH_INTERVAL_SECS,
        }
    }

    /// The address that the gRPC server binds to.
    pub fn grpc_address(&self) -> (address: String)
        ensures
            address@ == self.grpc.host@ + ":"@ + crate::text::natural_text(self.grpc.port as nat),
    {
        let mut address = self.grpc.host.clone();
        address.append(":");
        push_natural(&mut address, self.grpc.port as u64);
        assert(address@ =~= self.grpc.host@ + ":"@ + crate::text::natural_text(
            self.grpc.port as nat,
        ));
        address
    }

    /// The address that the metrics server binds to.
    pub fn metrics_address(&self) -> (address: String)
        ensures
            address@ == "0.0.0.0:"@ + crate::text::natural_text(self.metrics.port as nat),
    {
        let mut address = String::new();
        address.append("0.0.0.0:");
        push_natural(&mut address, self.metrics.port as u64);
        assert(address@ =~= "0.0.0.0:"@ + crate::text::natural_text(self.metrics.port as nat));
        address
    }
}

/// The message for a registry type that is not known.
pub fn unknown_registry_message(word: &str) -> (message: String)
    ensures
        message@ == "unknown registry type: '"@ + word@ + "'"@,
{
    let mut message = String::new();
    message.append("unknown registry type: '");
    message.append(word);
    message.append("'");
    assert(message@ =~= "unknown registry type: '"@ + word@ + "'"@);
    message
}

/// Law: a report names the file, gives the cause or the key and the reason, and
/// ends in a hint.
pub proof fn law_config_reports(
    path: Seq<char>,
    cause: String,
    field: &'static str,
    reason: crate::error::Reason,
    min: Seq<char>,
    max: Seq<char>,
)
    ensures
        config_report(path, ConfigError::Io(cause), min, max) == "could not read config file '"@
            + path + "'\n  cause:  "@ + cause@
            + "\n  hint:   check the path is correct and the file is readable"@,
        config_report(path, ConfigError::Parse(cause), min, max) == "config file '"@ + path
            + "' contains invalid TOML\n  cause:  "@ + cause@
            + "\n  hint:   run `axon init` to generate a valid starter config"@,
        config_report(path, ConfigError::Invalid { field, reason }, min, max) == "config file '"@
            + path + "' failed validation\n  field:  "@ + field@ + "\n  reason: "@ + reason.text(
            min,
            max,
        ) + "\n  hint:   run `axon init` to generate a valid starter config"@,
{
}

} // verus!
