//! Prediction logging: which predictions are logged, and how losses count.
//!
//! A request draws a ticket number and asks whether it is sampled. A sampled
//! prediction is offered to a bounded queue; when the queue is full the record
//! is dropped and counted, so that logging never holds up a response.

use vstd::prelude::*;

use crate::arithmetic::ONE;
use crate::config::PredictionsConfig;
use crate::numeric::F32;

verus! {

/// Capacity of the queue between requests and the task that publishes records.
pub const CHANNEL_CAPACITY: usize = 4096;

/// How long a single publish may wait for a slot in the producer's own queue,
/// in seconds.
pub const QUEUE_TIMEOUT_SECS: u64 = 5;

/// Why prediction logging cannot be set up.
#[non_exhaustive]
#[derive(Debug)]
pub enum PredictionsError {
    /// The message producer could not be created.
    ProducerCreation(String),
}

impl PredictionsError {
    /// The rendered error.
    pub open spec fn message_text(self) -> Seq<char> {
        match self {
            PredictionsError::ProducerCreation(cause) => "failed to create Kafka producer: "@
                + cause@,
        }
    }

    /// Renders the error.
    pub fn message(&self) -> (text: String)
        ensures
            text@ == self.message_text(),
    {
        let mut out = String::new();
        match self {
            PredictionsError::ProducerCreation(cause) => {
                out.append("failed to create Kafka producer: ");
                out.append(cause.as_str());
            },
        }
        assert(out@ =~= self.message_text());
        out
    }
}

/// The distance between sampled predictions for a sample rate.
///
/// A rate of 1 or more samples every prediction. A rate of 0 or less gives the
/// largest distance. Any other rate gives its reciprocal, rounded to the nearest
/// integer, and at least 1.
pub open spec fn is_sample_distance(rate: F32, every_n: u64) -> bool {
    if (F32 { bits: ONE }).spec_le(rate) {
        every_n == 1
    } else if rate.spec_le(F32 { bits: 0 }) {
        every_n == u64::MAX
    } else if rate.spec_is_nan() {
        every_n == 1
    } else {
        exists|inverse: F32, count: u64| #[trigger]
            inverse.is_reciprocal(rate) && #[trigger] inverse.counts_as(count) && every_n == (
            if count == 0 {
                1
            } else {
                count
            })
    }
}

/// Converts a sample rate into the distance between sampled predictions.
///
/// Counting instead of drawing random numbers keeps the decision to a single
/// increment.
pub fn sample_rate_to_every_n(sample_rate: F32) -> (every_n: u64)
    ensures
        is_sample_distance(sample_rate, every_n),
        every_n >= 1,
{
    if F32::from_bits(ONE).le(sample_rate) {
        1
    } else if sample_rate.le(F32::from_bits(0)) {
        u64::MAX
    } else if sample_rate.is_nan() {
        1
    } else {
        let inverse = sample_rate.reciprocal();
        proof {
            lemma_reciprocal_is_a_number(sample_rate, inverse);
        }
        let count = inverse.nearest_count();
        if count == 0 {
            1
        } else {
            count
        }
    }
}

/// The reciprocal of a number is a number.
proof fn lemma_reciprocal_is_a_number(value: F32, inverse: F32)
    requires
        !value.spec_is_nan(),
        inverse.is_reciprocal(value),
    ensures
        !inverse.spec_is_nan(),
{
}

/// Decides which predictions are logged.
#[derive(Clone, Copy, Debug)]
pub struct PredictionSink {
    /// Distance between sampled predictions.
    pub sample_every_n: u64,
    /// True if no prediction is sampled at all.
    pub never: bool,
}

impl PredictionSink {
    /// True if predictions can be counted off.
    pub open spec fn well_formed(self) -> bool {
        self.sample_every_n >= 1
    }

    /// True if the request with a ticket number is sampled.
    pub open spec fn samples(self, ticket: u64) -> bool {
        !self.never && ticket as int % self.sample_every_n as int == 0
    }

    /// Sets up sampling at the configured rate.
    pub fn new(config: &PredictionsConfig) -> (sink: Self)
        ensures
            sink.well_formed(),
            is_sample_distance(config.sample_rate, sink.sample_every_n),
            sink.never == config.sample_rate.spec_le(F32 { bits: 0 }),
    {
        PredictionSink {
            sample_every_n: sample_rate_to_every_n(config.sample_rate),
            never: config.sample_rate.le(F32::from_bits(0)),
        }
    }

    /// True if the request with a ticket number is sampled.
    ///
    /// Split from emission so that a request that is not sampled does not build
    /// a record at all.
    pub fn should_sample(&self, ticket: u64) -> (sampled: bool)
        requires
            self.well_formed(),
        ensures
            sampled == self.samples(ticket),
    {
        !self.never && ticket % self.sample_every_n == 0
    }
}

/// What became of a record.
#[derive(Clone, Copy, Debug, PartialEq, Eq, Structural)]
pub enum Delivery {
    /// It was queued for publishing.
    Emitted,
    /// It was dropped.
    Dropped,
}

/// Counts a record that was offered to the queue: it is dropped exactly if the
/// queue did not take it.
pub fn emit(queued: bool) -> (delivery: Delivery)
    ensures
        delivery == (if queued {
            Delivery::Emitted
        } else {
            Delivery::Dropped
        }),
{
    if queued {
        Delivery::Emitted
    } else {
        Delivery::Dropped
    }
}

/// The prediction log settings, if logging is configured and enabled.
pub fn enabled_predictions(config: &Option<PredictionsConfig>) -> (enabled: Option<
    &PredictionsConfig,
>)
    ensures
        enabled is Some <==> config is Some && config->Some_0.enabled,
        enabled is Some ==> *enabled->Some_0 == config->Some_0,
{
    match config {
        Some(settings) => {
            if settings.enabled {
                Some(settings)
            } else {
                None
            }
        },
        None => None,
    }
}

/// Number of sampled tickets among `count` tickets from `start` on.
pub open spec fn sampled_count(sink: PredictionSink, start: int, count: nat) -> nat
    decreases count,
{
    if count == 0 {
        0
    } else {
        sampled_count(sink, start, (count - 1) as nat) + (if !sink.never && (start + count - 1)
            % sink.sample_every_n as int == 0 {
            1nat
        } else {
            0nat
        })
    }
}

/// Law: a rate has one distance.
pub proof fn law_sample_distance_is_unique(rate: F32, one: u64, other: u64)
    requires
        is_sample_distance(rate, one),
        is_sample_distance(rate, other),
    ensures
        one == other,
{
    if !(F32 { bits: ONE }).spec_le(rate) && !rate.spec_le(F32 { bits: 0 })
        && !rate.spec_is_nan() {
        let (first, first_count) = choose|inverse: F32, count: u64| #[trigger]
            inverse.is_reciprocal(rate) && #[trigger] inverse.counts_as(count) && one == (
            if count == 0 {
                1
            } else {
                count
            });
        let (second, second_count) = choose|inverse: F32, count: u64| #[trigger]
            inverse.is_reciprocal(rate) && #[trigger] inverse.counts_as(count) && other == (
            if count == 0 {
                1
            } else {
                count
            });
        crate::arithmetic::law_reciprocal_is_unique(rate, first, second);
        lemma_reciprocal_is_a_number(rate, first);
        crate::arithmetic::law_nearest_count_is_unique(first, first_count, second_count);
    }
}

/// Law: a rate of zero or less samples nothing.
pub proof fn law_no_rate_no_samples(sink: PredictionSink, rate: F32, ticket: u64)
    requires
        sink.never == rate.spec_le(F32 { bits: 0 }),
        rate.spec_le(F32 { bits: 0 }),
    ensures
        !sink.samples(ticket),
{
}

/// Law: a rate of one or more samples everything.
pub proof fn law_full_rate_samples_all(sink: PredictionSink, rate: F32, ticket: u64)
    requires
        is_sample_distance(rate, sink.sample_every_n),
        sink.never == rate.spec_le(F32 { bits: 0 }),
        (F32 { bits: ONE }).spec_le(rate),
    ensures
        sink.samples(ticket),
{
    assert(ticket as int % 1 == 0);
    assert((F32 { bits: ONE }).units() > 0 && (F32 { bits: 0 }).units() == 0) by {
        crate::numeric::lemma_magnitude_order(0, ONE as int);
    }
}

/// Law: unless nothing is sampled, as many of the first tickets are sampled as
/// the distance goes into their number, rounded up.
pub proof fn law_samples_are_counted_off(sink: PredictionSink, count: nat)
    requires
        sink.well_formed(),
        !sink.never,
    ensures
        sampled_count(sink, 0, count) == (count + sink.sample_every_n - 1) / (
        sink.sample_every_n as int),
    decreases count,
{
    let n = sink.sample_every_n as int;
    if count == 0 {
        vstd::arithmetic::div_mod::lemma_fundamental_div_mod_converse(n - 1, n, 0, n - 1);
    } else {
        law_samples_are_counted_off(sink, (count - 1) as nat);
        let ticket = count - 1;
        let rounds = ticket / n;
        let offset = ticket % n;
        vstd::arithmetic::div_mod::lemma_fundamental_div_mod(ticket, n);
        vstd::arithmetic::div_mod::lemma_mod_bound(ticket, n);
        assert(ticket == rounds * n + offset && ticket + n == (rounds + 1) * n + offset)
            by (nonlinear_arith)
            requires
                ticket == n * rounds + offset,
        ;
        vstd::arithmetic::div_mod::lemma_fundamental_div_mod_converse(
            ticket + n,
            n,
            rounds + 1,
            offset,
        );
        if offset == 0 {
            vstd::arithmetic::div_mod::lemma_fundamental_div_mod_converse(
                ticket + n - 1,
                n,
                rounds,
                n - 1,
            );
        } else {
            vstd::arithmetic::div_mod::lemma_fundamental_div_mod_converse(
                ticket + n - 1,
                n,
                rounds + 1,
                offset - 1,
            );
        }
    }
}

/// Law: a higher rate never has the larger distance, and never samples fewer of
/// the first tickets.
pub proof fn law_higher_rate_samples_no_less(
    lower: F32,
    higher: F32,
    rare: PredictionSink,
    dense: PredictionSink,
    count: nat,
)
    requires
        lower.spec_le(higher),
        is_sample_distance(lower, rare.sample_every_n),
        is_sample_distance(higher, dense.sample_every_n),
        rare.never == lower.spec_le(F32 { bits: 0 }),
        dense.never == higher.spec_le(F32 { bits: 0 }),
    ensures
        dense.sample_every_n <= rare.sample_every_n,
        sampled_count(rare, 0, count) <= sampled_count(dense, 0, count),
{
    if !(F32 { bits: ONE }).spec_le(higher) && !lower.spec_le(F32 { bits: 0 }) {
        let (low, few) = choose|inverse: F32, count: u64| #[trigger]
            inverse.is_reciprocal(higher) && #[trigger] inverse.counts_as(count)
                && dense.sample_every_n == (if count == 0 {
                1
            } else {
                count
            });
        let (high, many) = choose|inverse: F32, count: u64| #[trigger]
            inverse.is_reciprocal(lower) && #[trigger] inverse.counts_as(count)
                && rare.sample_every_n == (if count == 0 {
                1
            } else {
                count
            });
        crate::arithmetic::law_reciprocal_reverses_order(lower, higher, high, low);
        crate::numeric::lemma_magnitude_trichotomy(0, lower.spec_magnitude());
        crate::numeric::lemma_magnitude_trichotomy(0, higher.spec_magnitude());
        crate::arithmetic::law_nearest_count_keeps_order(low, high, few, many);
    }
    if rare.never {
        lemma_never_samples(rare, count);
    } else {
        law_samples_are_counted_off(rare, count);
        law_samples_are_counted_off(dense, count);
        lemma_rounded_up_order(
            count as int,
            dense.sample_every_n as int,
            rare.sample_every_n as int,
        );
    }
}

/// A sink that never samples has sampled none.
proof fn lemma_never_samples(sink: PredictionSink, count: nat)
    requires
        sink.never,
    ensures
        sampled_count(sink, 0, count) == 0,
    decreases count,
{
    if count > 0 {
        lemma_never_samples(sink, (count - 1) as nat);
    }
}

/// A smaller distance goes into a number at least as often, rounded up.
proof fn lemma_rounded_up_order(count: int, small: int, large: int)
    requires
        count >= 0,
        0 < small <= large,
    ensures
        (count + large - 1) / large <= (count + small - 1) / small,
{
    let many = (count + small - 1) / small;
    let few = (count + large - 1) / large;
    vstd::arithmetic::div_mod::lemma_fundamental_div_mod(count + small - 1, small);
    vstd::arithmetic::div_mod::lemma_mod_bound(count + small - 1, small);
    vstd::arithmetic::div_mod::lemma_fundamental_div_mod(count + large - 1, large);
    vstd::arithmetic::div_mod::lemma_mod_bound(count + large - 1, large);
    assert(count <= small * many);
    assert(large * few <= count + large - 1);
    assert(many >= 0) by (nonlinear_arith)
        requires
            0 <= count <= small * many,
            small > 0,
    ;
    assert(few <= many) by (nonlinear_arith)
        requires
            count <= small * many,
            large * few <= count + large - 1,
            0 < small <= large,
            many >= 0,
    ;
}

/// Law: unless nothing is sampled, any run of as many tickets as the distance
/// has exactly one sampled ticket, wherever it starts.
pub proof fn law_one_sample_per_distance(sink: PredictionSink, start: int)
    requires
        sink.well_formed(),
        !sink.never,
        start >= 0,
    ensures
        sampled_count(sink, start, sink.sample_every_n as nat) == 1,
{
    let n = sink.sample_every_n as int;
    lemma_sampled_within_distance(sink, start, sink.sample_every_n as nat);
    assert(start / n * n + start % n == start && 0 <= start % n < n) by (nonlinear_arith)
        requires
            n > 0,
            start >= 0,
    ;
}

/// Within one distance, a ticket is sampled as soon as the next multiple of the
/// distance is reached.
proof fn lemma_sampled_within_distance(sink: PredictionSink, start: int, count: nat)
    requires
        sink.well_formed(),
        !sink.never,
        start >= 0,
        count <= sink.sample_every_n,
    ensures
        sampled_count(sink, start, count) == (if (start % sink.sample_every_n as int == 0 && count
            > 0) || start % sink.sample_every_n as int + count > sink.sample_every_n {
            1nat
        } else {
            0nat
        }),
    decreases count,
{
    let n = sink.sample_every_n as int;
    if count > 0 {
        lemma_sampled_within_distance(sink, start, (count - 1) as nat);
        let offset = start % n;
        let ticket = start + count - 1;
        let shifted = offset + count - 1;
        let rounds = start / n;
        assert(start == rounds * n + offset && 0 <= offset < n) by (nonlinear_arith)
            requires
                n > 0,
                start >= 0,
                rounds == start / n,
                offset == start % n,
        ;
        if shifted < n {
            assert(ticket % n == shifted) by (nonlinear_arith)
                requires
                    ticket == rounds * n + shifted,
                    0 <= shifted < n,
                    n > 0,
            ;
        } else {
            assert(ticket % n == shifted - n) by (nonlinear_arith)
                requires
                    ticket == rounds * n + shifted,
                    n <= shifted < 2 * n,
                    n > 0,
            ;
        }
    }
}

/// Law: a ticket is sampled exactly if sampling is on and the distance divides
/// its number.
pub proof fn law_sampled_tickets(sink: PredictionSink, ticket: u64)
    requires
        sink.sample_every_n >= 1,
    ensures
        sink.well_formed(),
        sink.samples(ticket) <==> !sink.never && (exists|times: int|
            ticket == #[trigger] (times * sink.sample_every_n)),
{
    let n = sink.sample_every_n as int;
    let number = ticket as int;
    vstd::arithmetic::div_mod::lemma_fundamental_div_mod(number, n);
    if number % n == 0 {
        assert(number == (number / n) * n) by (nonlinear_arith)
            requires
                number == n * (number / n) + number % n,
                number % n == 0,
        ;
    }
    if exists|times: int| number == #[trigger] (times * n) {
        let times = choose|times: int| number == #[trigger] (times * n);
        vstd::arithmetic::div_mod::lemma_fundamental_div_mod_converse(number, n, times, 0);
    }
}

/// Law: a rate below 1 has the distance that is nearest to its rounded
/// reciprocal.
pub proof fn law_distance_is_nearest_to_the_reciprocal(
    rate: F32,
    every_n: u64,
    inverse: F32,
    other: u64,
)
    requires
        is_sample_distance(rate, every_n),
        (F32 { bits: 0 }).spec_lt(rate),
        rate.spec_lt(F32 { bits: ONE }),
        inverse.is_reciprocal(rate),
        inverse.spec_is_finite(),
        other >= 1,
    ensures
        every_n >= 1,
        crate::rounding::distance(every_n * vstd::arithmetic::power2::pow2(149), inverse.units())
            <= crate::rounding::distance(
            other * vstd::arithmetic::power2::pow2(149),
            inverse.units(),
        ),
{
    let one = vstd::arithmetic::power2::pow2(149) as int;
    vstd::arithmetic::power2::lemma_pow2_pos(149);
    let (found, count) = choose|found: F32, count: u64| #[trigger]
        found.is_reciprocal(rate) && #[trigger] found.counts_as(count) && every_n == (if count
            == 0 {
            1
        } else {
            count
        });
    crate::arithmetic::law_reciprocal_is_unique(rate, inverse, found);
    crate::numeric::lemma_magnitude_trichotomy(0, rate.spec_magnitude());
    crate::numeric::lemma_magnitude_trichotomy(0, inverse.spec_magnitude());
    crate::arithmetic::law_nearest_count_is_nearest(inverse, count, other);
    if count == 0 {
        crate::arithmetic::law_nearest_count_is_nearest(inverse, 0, 1);
        assert(0 * one == 0 && 1 * one == one);
        assert(one <= other * one) by (nonlinear_arith)
            requires
                other >= 1,
                one > 0,
        ;
    }
}

/// Law: a rate of 1 or more has a distance of 1, a rate of zero or less the
/// largest distance, and a rate that is no number a distance of 1.
pub proof fn law_distance_of_extreme_rates(rate: F32, every_n: u64)
    requires
        is_sample_distance(rate, every_n),
    ensures
        (F32 { bits: 0x3f80_0000 }).spec_le(rate) ==> every_n == 1,
        rate.spec_le(F32 { bits: 0 }) ==> every_n == 0xffff_ffff_ffff_ffff,
        rate.spec_is_nan() ==> every_n == 1,
{
    crate::numeric::law_order_is_that_of_patterns(F32 { bits: 0 }, rate);
    crate::numeric::law_order_is_that_of_patterns(rate, F32 { bits: 0 });
    crate::numeric::law_order_is_that_of_patterns(F32 { bits: ONE }, rate);
}

/// Law: the message gives the cause.
pub proof fn law_predictions_message(cause: String)
    ensures
        PredictionsError::ProducerCreation(cause).message_text()
            == "failed to create Kafka producer: "@ + cause@,
{
}

/// Law: a rate whose reciprocal is beyond all numbers has the largest distance.
pub proof fn law_distance_of_vanishing_rates(rate: F32, every_n: u64, inverse: F32)
    requires
        is_sample_distance(rate, every_n),
        (F32 { bits: 0 }).spec_lt(rate),
        rate.spec_lt(F32 { bits: ONE }),
        inverse.is_reciprocal(rate),
        !inverse.spec_is_finite(),
    ensures
        every_n == 0xffff_ffff_ffff_ffff,
{
    let (found, count) = choose|found: F32, count: u64| #[trigger]
        found.is_reciprocal(rate) && #[trigger] found.counts_as(count) && every_n == (if count
            == 0 {
            1
        } else {
            count
        });
    crate::arithmetic::law_reciprocal_is_unique(rate, inverse, found);
    lemma_reciprocal_is_a_number(rate, inverse);
}

} // verus!
