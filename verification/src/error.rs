//! Error types for every fallible boundary, each with its rendered message.
//!
//! Each enum belongs to one subsystem:
//! - [`ConfigError`]: config loading and validation
//! - [`BackendError`]: inference backend
//! - [`StoreError`]: feature store
//! - [`RegistryError`]: model registry
//! - [`ServeError`]: server startup and metrics

use vstd::prelude::*;

use crate::numeric::F32;
use crate::text::{push_list, push_size, push_size_list};

verus! {

/// Errors from loading or validating a config.
#[non_exhaustive]
#[derive(Debug)]
pub enum ConfigError {
    /// The config file could not be read from disk.
    Io(String),
    /// The config file content could not be parsed.
    Parse(String),
    /// The config was parsed but failed semantic validation.
    Invalid {
        /// The offending config key.
        field: &'static str,
        /// Why it was refused.
        reason: Reason,
    },
}

/// Why a config key was refused.
#[derive(Debug)]
pub enum Reason {
    /// For what the text says.
    Text(String),
    /// For bounds that leave no range between them.
    EmptyRange {
        /// The lower bound.
        min: F32,
        /// The upper bound.
        max: F32,
    },
}

/// The reason given for a lower bound that is not below the upper one, the
/// bounds being rendered as `min` and `max`.
pub open spec fn range_reason(min: Seq<char>, max: Seq<char>) -> Seq<char> {
    "min ("@ + min + ") must be less than max ("@ + max + ")"@
}

/// The message for a config key that was refused for `reason`.
pub open spec fn invalid_message(field: Seq<char>, reason: Seq<char>) -> Seq<char> {
    "invalid config — "@ + field + ": "@ + reason
}

impl Reason {
    /// The rendered reason, in which `min` and `max` stand for the bounds of an
    /// empty range.
    pub open spec fn text(self, min: Seq<char>, max: Seq<char>) -> Seq<char> {
        match self {
            Reason::Text(text) => text@,
            Reason::EmptyRange { .. } => range_reason(min, max),
        }
    }

    /// Renders the reason; `min` and `max` are the decimal renderings of the
    /// bounds of an empty range, and are not looked at for any other reason.
    pub fn render(&self, min: &str, max: &str) -> (out: String)
        ensures
            out@ == self.text(min@, max@),
    {
        match self {
            Reason::Text(text) => text.clone(),
            Reason::EmptyRange { .. } => render_range_reason(min, max),
        }
    }
}

impl ConfigError {
    /// The rendered error, in which `min` and `max` stand for the bounds of an
    /// empty range.
    pub open spec fn message_text(self, min: Seq<char>, max: Seq<char>) -> Seq<char> {
        match self {
            ConfigError::Io(cause) => "failed to read config file: "@ + cause@,
            ConfigError::Parse(cause) => "failed to parse config: "@ + cause@,
            ConfigError::Invalid { field, reason } => invalid_message(
                field@,
                reason.text(min, max),
            ),
        }
    }

    /// Renders the error; `min` and `max` are the decimal renderings of the
    /// bounds of an empty range, and are not looked at for any other error.
    pub fn message(&self, min: &str, max: &str) -> (text: String)
        ensures
            text@ == self.message_text(min@, max@),
    {
        let mut out = String::new();
        match self {
            ConfigError::Io(cause) => {
                out.append("failed to read config file: ");
                out.append(cause.as_str());
                assert(out@ =~= "failed to read config file: "@ + cause@);
            },
            ConfigError::Parse(cause) => {
                out.append("failed to parse config: ");
                out.append(cause.as_str());
                assert(out@ =~= "failed to parse config: "@ + cause@);
            },
            ConfigError::Invalid { field, reason } => {
                let rendered = reason.render(min, max);
                out.append("invalid config — ");
                out.append(field);
                out.append(": ");
                out.append(rendered.as_str());
                assert(out@ =~= invalid_message(field@, rendered@));
            },
        }
        out
    }
}

/// Renders the reason given for a lower bound that is not below the upper one.
pub fn render_range_reason(min: &str, max: &str) -> (reason: String)
    ensures
        reason@ == range_reason(min@, max@),
{
    let mut out = String::new();
    out.append("min (");
    out.append(min);
    out.append(") must be less than max (");
    out.append(max);
    out.append(")");
    assert(out@ =~= range_reason(min@, max@));
    out
}

/// Errors from an inference backend.
#[allow(inconsistent_fields)]
#[non_exhaustive]
#[derive(Debug)]
pub enum BackendError {
    /// The inference session could not be created at startup.
    SessionCreation(String),
    /// The input tensor shape did not match what the model expects.
    ShapeMismatch {
        /// Shape that the model expects.
        expected: Vec<i64>,
        /// Shape that was given.
        got: Vec<i64>,
    },
    /// The model produced an unexpected number of outputs.
    OutputCountMismatch {
        /// Number of outputs declared.
        expected: usize,
        /// Number of outputs produced.
        got: usize,
    },
    /// The inference run itself failed.
    InferenceFailed(String),
}

impl BackendError {
    /// The rendered error.
    pub open spec fn message_text(self) -> Seq<char> {
        match self {
            BackendError::SessionCreation(cause) => "failed to create inference session: "@
                + cause@,
            BackendError::ShapeMismatch { expected, got } => "input shape mismatch: expected "@
                + crate::text::list_text(crate::text::signed_ints(expected@)) + ", got "@
                + crate::text::list_text(crate::text::signed_ints(got@)),
            BackendError::OutputCountMismatch { expected, got } =>
                "output count mismatch: expected "@ + crate::text::natural_text(expected as nat)
                + ", got "@ + crate::text::natural_text(got as nat),
            BackendError::InferenceFailed(cause) => "inference failed: "@ + cause@,
        }
    }

    /// Renders the error.
    pub fn message(&self) -> (text: String)
        ensures
            text@ == self.message_text(),
    {
        let mut out = String::new();
        match self {
            BackendError::SessionCreation(cause) => {
                out.append("failed to create inference session: ");
                out.append(cause.as_str());
            },
            BackendError::ShapeMismatch { expected, got } => {
                out.append("input shape mismatch: expected ");
                push_list(&mut out, expected);
                out.append(", got ");
                push_list(&mut out, got);
            },
            BackendError::OutputCountMismatch { expected, got } => {
                out.append("output count mismatch: expected ");
                push_size(&mut out, *expected);
                out.append(", got ");
                push_size(&mut out, *got);
            },
            BackendError::InferenceFailed(cause) => {
                out.append("inference failed: ");
                out.append(cause.as_str());
            },
        }
        assert(out@ =~= self.message_text());
        out
    }
}

/// Errors from a feature store.
#[non_exhaustive]
#[derive(Debug)]
pub enum StoreError {
    /// A connection or pool could not be established.
    Connection(String),
    /// A feature fetch command failed.
    Fetch {
        /// Entity whose features were asked for.
        entity_id: String,
        /// What the store reported.
        reason: String,
    },
    /// The raw bytes returned by the store could not be decoded.
    Deserialize {
        /// Entity whose features were asked for.
        entity_id: String,
        /// What the decoder reported.
        reason: String,
    },
    /// The decoded feature vector has the wrong shape for the pipeline.
    ShapeMismatch {
        /// Entity whose features were asked for.
        entity_id: String,
        /// Shape of the destination.
        expected: Vec<usize>,
        /// Shape of what was stored.
        got: Vec<usize>,
    },
}

impl StoreError {
    /// The rendered error.
    pub open spec fn message_text(self) -> Seq<char> {
        match self {
            StoreError::Connection(cause) => "failed to connect to feature store: "@ + cause@,
            StoreError::Fetch { entity_id, reason } => "feature fetch failed for entity '"@
                + entity_id@ + "': "@ + reason@,
            StoreError::Deserialize { entity_id, reason } =>
                "failed to deserialise features for entity '"@ + entity_id@ + "': "@ + reason@,
            StoreError::ShapeMismatch { entity_id, expected, got } =>
                "feature shape mismatch for entity '"@ + entity_id@ + "': expected "@
                + crate::text::list_text(crate::text::size_ints(expected@)) + ", got "@
                + crate::text::list_text(crate::text::size_ints(got@)),
        }
    }

    /// Renders the error.
    pub fn message(&self) -> (text: String)
        ensures
            text@ == self.message_text(),
    {
        let mut out = String::new();
        match self {
            StoreError::Connection(cause) => {
                out.append("failed to connect to feature store: ");
                out.append(cause.as_str());
            },
            StoreError::Fetch { entity_id, reason } => {
                out.append("feature fetch failed for entity '");
                out.append(entity_id.as_str());
                out.append("': ");
                out.append(reason.as_str());
            },
            StoreError::Deserialize { entity_id, reason } => {
                out.append("failed to deserialise features for entity '");
                out.append(entity_id.as_str());
                out.append("': ");
                out.append(reason.as_str());
            },
            StoreError::ShapeMismatch { entity_id, expected, got } => {
                out.append("feature shape mismatch for entity '");
                out.append(entity_id.as_str());
                out.append("': expected ");
                push_size_list(&mut out, expected);
                out.append(", got ");
                push_size_list(&mut out, got);
            },
        }
        assert(out@ =~= self.message_text());
        out
    }
}

/// Errors from a model registry.
#[non_exhaustive]
#[derive(Debug)]
pub enum RegistryError {
    /// The HTTP client could not be built.
    HttpClient(String),
    /// A request to the registry failed.
    Request(String),
    /// The registry response could not be parsed.
    Parse(String),
    /// No version of the requested model exists in the registry.
    ModelNotFound {
        /// Name of the model.
        name: String,
    },
    /// A local file operation failed.
    Io(String),
}

impl RegistryError {
    /// The rendered error.
    pub open spec fn message_text(self) -> Seq<char> {
        match self {
            RegistryError::HttpClient(cause) => "failed to build HTTP client: "@ + cause@,
            RegistryError::Request(cause) => "registry request failed: "@ + cause@,
            RegistryError::Parse(cause) => "failed to parse registry response: "@ + cause@,
            RegistryError::ModelNotFound { name } => "model '"@ + name@
                + "' not found in registry"@,
            RegistryError::Io(cause) => "I/O error: "@ + cause@,
        }
    }

    /// Renders the error.
    pub fn message(&self) -> (text: String)
        ensures
            text@ == self.message_text(),
    {
        let mut out = String::new();
        match self {
            RegistryError::HttpClient(cause) => {
                out.append("failed to build HTTP client: ");
                out.append(cause.as_str());
            },
            RegistryError::Request(cause) => {
                out.append("registry request failed: ");
                out.append(cause.as_str());
            },
            RegistryError::Parse(cause) => {
                out.append("failed to parse registry response: ");
                out.append(cause.as_str());
            },
            RegistryError::ModelNotFound { name } => {
                out.append("model '");
                out.append(name.as_str());
                out.append("' not found in registry");
            },
            RegistryError::Io(cause) => {
                out.append("I/O error: ");
                out.append(cause.as_str());
            },
        }
        assert(out@ =~= self.message_text());
        out
    }
}

/// Errors from server startup or metrics initialisation.
#[non_exhaustive]
#[derive(Debug)]
pub enum ServeError {
    /// A metric could not be registered.
    MetricsRegistration {
        /// Name of the metric.
        name: &'static str,
        /// What the registry of metrics reported.
        reason: String,
    },
    /// The metrics could not be encoded for the scrape endpoint.
    MetricsEncoding(String),
}

impl ServeError {
    /// The rendered error.
    pub open spec fn message_text(self) -> Seq<char> {
        match self {
            ServeError::MetricsRegistration { name, reason } => "failed to register metric '"@
                + name@ + "': "@ + reason@,
            ServeError::MetricsEncoding(cause) => "failed to encode metrics: "@ + cause@,
        }
    }

    /// Renders the error.
    pub fn message(&self) -> (text: String)
        ensures
            text@ == self.message_text(),
    {
        let mut out = String::new();
        match self {
            ServeError::MetricsRegistration { name, reason } => {
                out.append("failed to register metric '");
                out.append(name);
                out.append("': ");
                out.append(reason.as_str());
            },
            ServeError::MetricsEncoding(cause) => {
                out.append("failed to encode metrics: ");
                out.append(cause.as_str());
            },
        }
        assert(out@ =~= self.message_text());
        out
    }
}

/// Law: a refused key is named in front of the reason, and an empty range is
/// described by its two bounds, in order.
pub proof fn law_config_messages(
    cause: String,
    field: &'static str,
    text: String,
    bounds: (F32, F32),
    min: Seq<char>,
    max: Seq<char>,
)
    ensures
        ConfigError::Io(cause).message_text(min, max) == "failed to read config file: "@ + cause@,
        ConfigError::Parse(cause).message_text(min, max) == "failed to parse config: "@ + cause@,
        (ConfigError::Invalid { field, reason: Reason::Text(text) }).message_text(min, max)
            == "invalid config — "@ + field@ + ": "@ + text@,
        (ConfigError::Invalid {
            field,
            reason: Reason::EmptyRange { min: bounds.0, max: bounds.1 },
        }).message_text(min, max) == "invalid config — "@ + field@ + ": "@ + ("min ("@ + min
            + ") must be less than max ("@ + max + ")"@),
        Reason::Text(text).text(min, max) == text@,
        (Reason::EmptyRange { min: bounds.0, max: bounds.1 }).text(min, max) == "min ("@ + min
            + ") must be less than max ("@ + max + ")"@,
{
}

/// Law: a backend's message gives the cause, or what was expected before what
/// was given.
pub proof fn law_backend_messages(
    cause: String,
    expected: Vec<i64>,
    got: Vec<i64>,
    counts: (usize, usize),
)
    ensures
        BackendError::SessionCreation(cause).message_text()
            == "failed to create inference session: "@ + cause@,
        BackendError::InferenceFailed(cause).message_text() == "inference failed: "@ + cause@,
        (BackendError::ShapeMismatch { expected, got }).message_text()
            == "input shape mismatch: expected "@ + crate::text::list_text(
            crate::text::signed_ints(expected@),
        ) + ", got "@ + crate::text::list_text(crate::text::signed_ints(got@)),
        (BackendError::OutputCountMismatch {
            expected: counts.0,
            got: counts.1,
        }).message_text() == "output count mismatch: expected "@ + crate::text::natural_text(
            counts.0 as nat,
        ) + ", got "@ + crate::text::natural_text(counts.1 as nat),
{
}

/// Law: a store's message names the entity, and gives the cause, or what was
/// expected before what was stored.
pub proof fn law_store_messages(
    entity_id: String,
    cause: String,
    expected: Vec<usize>,
    got: Vec<usize>,
)
    ensures
        StoreError::Connection(cause).message_text() == "failed to connect to feature store: "@
            + cause@,
        (StoreError::Fetch { entity_id, reason: cause }).message_text()
            == "feature fetch failed for entity '"@ + entity_id@ + "': "@ + cause@,
        (StoreError::Deserialize { entity_id, reason: cause }).message_text()
            == "failed to deserialise features for entity '"@ + entity_id@ + "': "@ + cause@,
        (StoreError::ShapeMismatch { entity_id, expected, got }).message_text()
            == "feature shape mismatch for entity '"@ + entity_id@ + "': expected "@
            + crate::text::list_text(crate::text::size_ints(expected@)) + ", got "@
            + crate::text::list_text(crate::text::size_ints(got@)),
{
}

/// Law: a registry's message gives the cause or the name of the model.
pub proof fn law_registry_messages(name: String, cause: String)
    ensures
        RegistryError::HttpClient(cause).message_text() == "failed to build HTTP client: "@
            + cause@,
        RegistryError::Request(cause).message_text() == "registry request failed: "@ + cause@,
        RegistryError::Parse(cause).message_text() == "failed to parse registry response: "@
            + cause@,
        (RegistryError::ModelNotFound { name }).message_text() == "model '"@ + name@
            + "' not found in registry"@,
        RegistryError::Io(cause).message_text() == "I/O error: "@ + cause@,
{
}

/// Law: a startup message names the metric and gives the cause.
pub proof fn law_serve_messages(name: &'static str, cause: String)
    ensures
        (ServeError::MetricsRegistration { name, reason: cause }).message_text()
            == "failed to register metric '"@ + name@ + "': "@ + cause@,
        ServeError::MetricsEncoding(cause).message_text() == "failed to encode metrics: "@ + cause@,
{
}

} // verus!
