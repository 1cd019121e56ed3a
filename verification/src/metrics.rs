//! The metrics that the service exposes, and the page they are served on.

use vstd::prelude::*;

use crate::error::ServeError;
use crate::text::push_size;

verus! {

/// What a metric measures.
#[derive(Clone, Copy, Debug, PartialEq, Eq, Structural)]
pub enum MetricKind {
    /// A count that only grows.
    Counter,
    /// A value that is set.
    Gauge,
    /// A distribution.
    Histogram,
}

/// The declaration of a metric.
#[derive(Debug)]
pub struct MetricSpec {
    /// Name under which the metric is exposed.
    pub name: &'static str,
    /// What the metric is about.
    pub help: &'static str,
    /// What the metric measures.
    pub kind: MetricKind,
    /// Names of the labels by which it is broken down.
    pub labels: Vec<&'static str>,
    /// Upper bounds of the buckets of a distribution, in microseconds; empty for
    /// the usual ones.
    pub buckets_us: Vec<u64>,
}

/// What the declaration of a metric says.
#[verifier::ext_equal]
pub struct MetricView {
    /// Name under which the metric is exposed.
    pub name: Seq<char>,
    /// What the metric is about.
    pub help: Seq<char>,
    /// What the metric measures.
    pub kind: MetricKind,
    /// Names of the labels by which it is broken down.
    pub labels: Seq<Seq<char>>,
    /// Upper bounds of the buckets of a distribution, in microseconds; empty for
    /// the usual ones.
    pub buckets_us: Seq<u64>,
}

impl View for MetricSpec {
    type V = MetricView;

    open spec fn view(&self) -> MetricView {
        MetricView {
            name: self.name@,
            help: self.help@,
            kind: self.kind,
            labels: self.labels@.map_values(|label: &'static str| label@),
            buckets_us: self.buckets_us@,
        }
    }
}

/// The declaration of a metric that is not a distribution.
pub open spec fn scalar_metric(
    name: Seq<char>,
    help: Seq<char>,
    kind: MetricKind,
    labels: Seq<Seq<char>>,
) -> MetricView {
    MetricView { name, help, kind, labels, buckets_us: Seq::empty() }
}

/// The declaration of a distribution.
pub open spec fn histogram_metric(
    name: Seq<char>,
    help: Seq<char>,
    labels: Seq<Seq<char>>,
    buckets_us: Seq<u64>,
) -> MetricView {
    MetricView { name, help, kind: MetricKind::Histogram, labels, buckets_us }
}

/// The metrics of the service, in the order in which they are registered.
pub open spec fn declared_metrics() -> Seq<MetricView> {
    seq![
        scalar_metric(
            "axon_requests_total"@,
            "Total inference requests by RPC and status."@,
            MetricKind::Counter,
            seq!["rpc"@, "status"@],
        ),
        histogram_metric(
            "axon_request_duration_seconds"@,
            "End-to-end request latency in seconds."@,
            seq!["rpc"@],
            seq![1_000u64, 5_000, 10_000, 25_000, 50_000, 100_000, 250_000, 500_000, 1_000_000],
        ),
        histogram_metric(
            "axon_store_fetch_duration_seconds"@,
            "Redis feature fetch latency in seconds."@,
            Seq::empty(),
            seq![100u64, 500, 1_000, 5_000, 10_000, 50_000],
        ),
        scalar_metric(
            "axon_store_misses_total"@,
            "Total feature store lookups that returned no entry."@,
            MetricKind::Counter,
            Seq::empty(),
        ),
        scalar_metric(
            "axon_stage_p99_ns"@,
            "Stage p99 latency in nanoseconds."@,
            MetricKind::Gauge,
            seq!["stage"@],
        ),
        scalar_metric(
            "axon_stage_p999_ns"@,
            "Stage p999 latency in nanoseconds."@,
            MetricKind::Gauge,
            seq!["stage"@],
        ),
        scalar_metric(
            "axon_stage_count_total"@,
            "Total stage executions."@,
            MetricKind::Gauge,
            seq!["stage"@],
        ),
        scalar_metric(
            "axon_stage_error_rate"@,
            "Stage error rate as a fraction between 0.0 and 1.0."@,
            MetricKind::Gauge,
            seq!["stage"@],
        ),
        histogram_metric(
            "axon_served_feature_age_seconds"@,
            "Age of served features in seconds."@,
            Seq::empty(),
            Seq::empty(),
        ),
        scalar_metric(
            "axon_schema_version_rejects_total"@,
            "Total requests refused for their feature schema version."@,
            MetricKind::Counter,
            Seq::empty(),
        ),
        scalar_metric(
            "axon_predictions_emitted_total"@,
            "Total prediction records queued for publishing."@,
            MetricKind::Counter,
            Seq::empty(),
        ),
        scalar_metric(
            "axon_predictions_dropped_total"@,
            "Total prediction records dropped because the queue was full."@,
            MetricKind::Counter,
            Seq::empty(),
        ),
    ]
}

/// Declares a metric.
fn declare(
    name: &'static str,
    help: &'static str,
    kind: MetricKind,
    labels: Vec<&'static str>,
    buckets_us: Vec<u64>,
) -> (metric: MetricSpec)
    ensures
        metric@ == (MetricView {
            name: name@,
            help: help@,
            kind,
            labels: labels@.map_values(|label: &'static str| label@),
            buckets_us: buckets_us@,
        }),
{
    MetricSpec { name, help, kind, labels, buckets_us }
}

/// A list without labels.
fn no_labels() -> (labels: Vec<&'static str>)
    ensures
        labels@.map_values(|label: &'static str| label@) == Seq::<Seq<char>>::empty(),
{
    let labels: Vec<&'static str> = Vec::new();
    assert(labels@.map_values(|label: &'static str| label@) =~= Seq::<Seq<char>>::empty());
    labels
}

/// A list of one label.
fn one_label(label: &'static str) -> (labels: Vec<&'static str>)
    ensures
        labels@.map_values(|label: &'static str| label@) == seq![label@],
{
    let mut labels: Vec<&'static str> = Vec::new();
    labels.push(label);
    assert(labels@.map_values(|label: &'static str| label@) =~= seq![label@]);
    labels
}

/// A list of two labels.
fn two_labels(first: &'static str, second: &'static str) -> (labels: Vec<&'static str>)
    ensures
        labels@.map_values(|label: &'static str| label@) == seq![first@, second@],
{
    let mut labels: Vec<&'static str> = Vec::new();
    labels.push(first);
    labels.push(second);
    assert(labels@.map_values(|label: &'static str| label@) =~= seq![first@, second@]);
    labels
}

/// The metrics of the service, in the order in which they are registered.
pub fn metric_specs() -> (specs: Vec<MetricSpec>)
    ensures
        specs@.map_values(|spec: MetricSpec| spec@) == declared_metrics(),
{
    let mut specs: Vec<MetricSpec> = Vec::new();
    specs.push(
        declare(
            "axon_requests_total",
            "Total inference requests by RPC and status.",
            MetricKind::Counter,
            two_labels("rpc", "status"),
            Vec::new(),
        ),
    );
    specs.push(
        declare(
            "axon_request_duration_seconds",
            "End-to-end request latency in seconds.",
            MetricKind::Histogram,
            one_label("rpc"),
            vec![1_000u64, 5_000, 10_000, 25_000, 50_000, 100_000, 250_000, 500_000, 1_000_000],
        ),
    );
    specs.push(
        declare(
            "axon_store_fetch_duration_seconds",
            "Redis feature fetch latency in seconds.",
            MetricKind::Histogram,
            no_labels(),
            vec![100u64, 500, 1_000, 5_000, 10_000, 50_000],
        ),
    );
    specs.push(
        declare(
            "axon_store_misses_total",
            "Total feature store lookups that returned no entry.",
            MetricKind::Counter,
            no_labels(),
            Vec::new(),
        ),
    );
    specs.push(
        declare(
            "axon_stage_p99_ns",
            "Stage p99 latency in nanoseconds.",
            MetricKind::Gauge,
            one_label("stage"),
            Vec::new(),
        ),
    );
    specs.push(
        declare(
            "axon_stage_p999_ns",
            "Stage p999 latency in nanoseconds.",
            MetricKind::Gauge,
            one_label("stage"),
            Vec::new(),
        ),
    );
    specs.push(
        declare(
            "axon_stage_count_total",
            "Total stage executions.",
            MetricKind::Gauge,
            one_label("stage"),
            Vec::new(),
        ),
    );
    specs.push(
        declare(
            "axon_stage_error_rate",
            "Stage error rate as a fraction between 0.0 and 1.0.",
            MetricKind::Gauge,
            one_label("stage"),
            Vec::new(),
        ),
    );
    specs.push(
        declare(
            "axon_served_feature_age_seconds",
            "Age of served features in seconds.",
            MetricKind::Histogram,
            no_labels(),
            Vec::new(),
        ),
    );
    specs.push(
        declare(
            "axon_schema_version_rejects_total",
            "Total requests refused for their feature schema version.",
            MetricKind::Counter,
            no_labels(),
            Vec::new(),
        ),
    );
    specs.push(
        declare(
            "axon_predictions_emitted_total",
            "Total prediction records queued for publishing.",
            MetricKind::Counter,
            no_labels(),
            Vec::new(),
        ),
    );
    specs.push(
        declare(
            "axon_predictions_dropped_total",
            "Total prediction records dropped because the queue was full.",
            MetricKind::Counter,
            no_labels(),
            Vec::new(),
        ),
    );
    proof {
        let views = specs@.map_values(|spec: MetricSpec| spec@);
        let wanted = declared_metrics();
        assert(views.len() == wanted.len());
        assert(views[1].buckets_us =~= wanted[1].buckets_us);
        assert(views[2].buckets_us =~= wanted[2].buckets_us);
        assert forall|i: int| 0 <= i < views.len() implies views[i] == wanted[i] by {
            assert(views[i] =~~= wanted[i]);
        }
        assert(views =~= wanted);
    }
    specs
}

/// The error for a metric that could not be created or registered.
pub fn registration_error(spec: &MetricSpec, reason: String) -> (error: ServeError)
    ensures
        error is MetricsRegistration,
        error->name@ == spec@.name,
        error->reason@ == reason@,
{
    ServeError::MetricsRegistration { name: spec.name, reason }
}

/// The head of the metrics page for a body of the given length in bytes.
pub open spec fn page_head(length: nat) -> Seq<char> {
    "HTTP/1.1 200 OK\r\nContent-Type: text/plain; version=0.0.4\r\nContent-Length: "@
        + crate::text::natural_text(length) + "\r\nConnection: close\r\n\r\n"@
}

/// The page on which metrics are served: a success with the body's exact length
/// in bytes.
pub fn metrics_page(body: &str) -> (page: String)
    ensures
        page@ == page_head(crate::types::byte_len(body@)) + body@,
{
    let mut page = String::new();
    page.append("HTTP/1.1 200 OK\r\nContent-Type: text/plain; version=0.0.4\r\nContent-Length: ");
    push_size(&mut page, body.as_bytes().len());
    page.append("\r\nConnection: close\r\n\r\n");
    page.append(body);
    assert(page@ =~= page_head(crate::types::byte_len(body@)) + body@);
    page
}

/// Law: a declaration is seen field by field.
pub proof fn law_declaration_is_seen_as_it_is(spec: MetricSpec, i: int)
    ensures
        spec@.name == spec.name@,
        spec@.help == spec.help@,
        spec@.kind == spec.kind,
        spec@.labels.len() == spec.labels@.len(),
        0 <= i < spec.labels@.len() ==> spec@.labels[i] == spec.labels@[i]@,
        spec@.buckets_us == spec.buckets_us@,
{
}

/// Law: the names of the metrics, in the order in which they are registered.
pub proof fn law_names_of_metrics()
    ensures
        declared_metrics().len() == 12,
        declared_metrics()[0].name == "axon_requests_total"@,
        declared_metrics()[1].name == "axon_request_duration_seconds"@,
        declared_metrics()[2].name == "axon_store_fetch_duration_seconds"@,
        declared_metrics()[3].name == "axon_store_misses_total"@,
        declared_metrics()[4].name == "axon_stage_p99_ns"@,
        declared_metrics()[5].name == "axon_stage_p999_ns"@,
        declared_metrics()[6].name == "axon_stage_count_total"@,
        declared_metrics()[7].name == "axon_stage_error_rate"@,
        declared_metrics()[8].name == "axon_served_feature_age_seconds"@,
        declared_metrics()[9].name == "axon_schema_version_rejects_total"@,
        declared_metrics()[10].name == "axon_predictions_emitted_total"@,
        declared_metrics()[11].name == "axon_predictions_dropped_total"@,
{
}

/// Law: only distributions have bucket bounds, and the bounds of each grow.
pub proof fn law_buckets_grow(i: int, j: int, k: int)
    requires
        0 <= i < declared_metrics().len(),
    ensures
        declared_metrics()[i].kind != MetricKind::Histogram ==> declared_metrics()[i].buckets_us.len()
            == 0,
        0 <= j < k < declared_metrics()[i].buckets_us.len() ==> declared_metrics()[i].buckets_us[j]
            < declared_metrics()[i].buckets_us[k],
{
}

/// Law: requests are broken down by procedure and outcome, their latency by
/// procedure, what is known of stages by stage, and nothing else is broken down.
pub proof fn law_labels_of_metrics(i: int)
    requires
        0 <= i < declared_metrics().len(),
    ensures
        i == 0 ==> declared_metrics()[i].labels == seq!["rpc"@, "status"@],
        i == 1 ==> declared_metrics()[i].labels == seq!["rpc"@],
        4 <= i <= 7 ==> declared_metrics()[i].labels == seq!["stage"@],
        i == 2 || i == 3 || i >= 8 ==> declared_metrics()[i].labels.len() == 0,
        declared_metrics()[i].kind == (if i == 1 || i == 2 || i == 8 {
            MetricKind::Histogram
        } else if 4 <= i <= 7 {
            MetricKind::Gauge
        } else {
            MetricKind::Counter
        }),
{
}

/// Law: the page is a success that gives the type and the length of its body.
pub proof fn law_page_head(length: nat)
    ensures
        page_head(length)
            == "HTTP/1.1 200 OK\r\nContent-Type: text/plain; version=0.0.4\r\nContent-Length: "@
            + crate::text::natural_text(length) + "\r\nConnection: close\r\n\r\n"@,
{
}

/// Law: what each metric is about, and the bounds of the latency distributions.
pub proof fn law_what_metrics_are_about()
    ensures
        declared_metrics()[0].help == "Total inference requests by RPC and status."@,
        declared_metrics()[1].help == "End-to-end request latency in seconds."@,
        declared_metrics()[2].help == "Redis feature fetch latency in seconds."@,
        declared_metrics()[3].help == "Total feature store lookups that returned no entry."@,
        declared_metrics()[4].help == "Stage p99 latency in nanoseconds."@,
        declared_metrics()[5].help == "Stage p999 latency in nanoseconds."@,
        declared_metrics()[6].help == "Total stage executions."@,
        declared_metrics()[7].help == "Stage error rate as a fraction between 0.0 and 1.0."@,
        declared_metrics()[8].help == "Age of served features in seconds."@,
        declared_metrics()[9].help == "Total requests refused for their feature schema version."@,
        declared_metrics()[10].help == "Total prediction records queued for publishing."@,
        declared_metrics()[11].help
            == "Total prediction records dropped because the queue was full."@,
        declared_metrics()[1].buckets_us == seq![
            1_000u64,
            5_000,
            10_000,
            25_000,
            50_000,
            100_000,
            250_000,
            500_000,
            1_000_000,
        ],
        declared_metrics()[2].buckets_us == seq![100u64, 500, 1_000, 5_000, 10_000, 50_000],
        declared_metrics()[8].buckets_us.len() == 0,
{
}

} // verus!
