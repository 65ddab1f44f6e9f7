//! Sensor Sampler: turning periodic sensor read outcomes into telemetry.
//!
//! Each cycle either yields a reading (temperature, relative humidity) or
//! fails. A successful cycle emits exactly one sensor telemetry event; a
//! failed cycle emits nothing and the sampler carries on with the next cycle —
//! failures are counted for the log, never fatal.

use vstd::prelude::*;

use crate::telemetry::TelemetryEvent;

verus! {

/// One sensor sample: temperature and relative humidity, in the sensor's own
/// units and precision.
#[derive(Copy, Clone, Debug, PartialEq, Eq, Structural)]
pub struct SensorReading {
    pub temperature: i8,
    pub humidity: u8,
}

/// The telemetry event for one cycle: the sample's event on success, nothing
/// on failure.
pub open spec fn spec_sample_event(outcome: Option<SensorReading>) -> Option<TelemetryEvent> {
    match outcome {
        Some(r) => Some(
            TelemetryEvent::Sensor { temperature: r.temperature, humidity: r.humidity },
        ),
        None => None,
    }
}

/// The telemetry events of a whole run of cycles, in cycle order: one event
/// per successful cycle, none for a failed one.
pub open spec fn spec_run_events(outcomes: Seq<Option<SensorReading>>) -> Seq<TelemetryEvent>
    decreases outcomes.len(),
{
    if outcomes.len() == 0 {
        Seq::empty()
    } else {
        spec_run_events(outcomes.drop_last()) + match outcomes.last() {
            Some(r) => seq![
                TelemetryEvent::Sensor { temperature: r.temperature, humidity: r.humidity },
            ],
            None => Seq::empty(),
        }
    }
}

/// How many cycles of a run failed.
pub open spec fn spec_run_failures(outcomes: Seq<Option<SensorReading>>) -> nat
    decreases outcomes.len(),
{
    if outcomes.len() == 0 {
        0
    } else {
        spec_run_failures(outcomes.drop_last()) + if outcomes.last() is None {
            1nat
        } else {
            0nat
        }
    }
}

/// Decides one sampler cycle: a successful read emits exactly one sensor
/// event carrying the sample, a failed read emits nothing.
pub fn sample_event(outcome: Option<SensorReading>) -> (ev: Option<TelemetryEvent>)
    ensures
        ev == spec_sample_event(outcome),
{
    match outcome {
        Some(r) => Some(TelemetryEvent::Sensor { temperature: r.temperature, humidity: r.humidity }),
        None => None,
    }
}

/// Runs a sequence of cycles: returns the emitted events in cycle order and
/// the number of failed cycles (each of which the device logs). A failure
/// never stops the run.
pub fn run_cycles(outcomes: &Vec<Option<SensorReading>>) -> (r: (Vec<TelemetryEvent>, usize))
    ensures
        r.0@ == spec_run_events(outcomes@),
        r.1 == spec_run_failures(outcomes@),
{
    let mut events: Vec<TelemetryEvent> = Vec::new();
    let mut failures: usize = 0;
    let n = outcomes.len();
    let mut i: usize = 0;
    while i < n
        invariant
            n == outcomes@.len(),
            i <= n,
            events@ == spec_run_events(outcomes@.take(i as int)),
            failures == spec_run_failures(outcomes@.take(i as int)),
            failures <= i,
        decreases n - i,
    {
        match sample_event(outcomes[i]) {
            Some(ev) => {
                events.push(ev);
            },
            None => {
                failures = failures + 1;
            },
        }
        proof {
            assert(outcomes@.take(i + 1).drop_last() =~= outcomes@.take(i as int));
            assert(outcomes@.take(i + 1).last() == outcomes@[i as int]);
        }
        i = i + 1;
    }
    proof {
        assert(outcomes@.take(n as int) =~= outcomes@);
    }
    (events, failures)
}

/// A run emits one event per successful cycle and none per failed cycle: the
/// event count and the failure count always add up to the cycle count.
pub proof fn lemma_events_plus_failures(outcomes: Seq<Option<SensorReading>>)
    ensures
        spec_run_events(outcomes).len() + spec_run_failures(outcomes) == outcomes.len(),
    decreases outcomes.len(),
{
    if outcomes.len() > 0 {
        lemma_events_plus_failures(outcomes.drop_last());
    }
}

} // verus!
