//! The barometric-altitude producer.
//!
//! The producer starts its sensor once and then samples it on a fixed
//! period. Turning a pressure into an altitude is floating-point work and is
//! done by the task that owns the sensor; [`sample`] decides what each event
//! does: a sample writes the barometric altitude and nothing else, a failed
//! read is logged and the next sample is taken on schedule, and a sensor that
//! does not start ends the producer, and nothing but the producer.

use crate::log::LogEntry;
use crate::state::Update;
use vstd::prelude::*;

verus! {

/// Pause between two samples.
pub const SAMPLE_INTERVAL_MS: u64 = 1_000;

/// The pressure, in pascals, that counts as altitude zero. It is the
/// standard atmosphere, not the weather of the day, so altitudes are good
/// for trends and not for absolute height.
pub const SEA_LEVEL_PRESSURE_PA: u32 = 101_325;

/// Where the altimeter's task is.
#[derive(Clone, Copy, Debug, PartialEq, Eq, Structural)]
pub enum Altimeter {
    /// Starting the sensor.
    Starting,
    /// Taking a sample.
    Measuring,
    /// Pausing until the next sample is due.
    Resting,
    /// The sensor did not start; the task has ended.
    Stopped,
}

/// What the altimeter's task reports back.
#[derive(Clone, Copy, Debug, PartialEq, Eq, Structural)]
pub enum AltimeterEvent {
    /// The sensor started.
    Started,
    /// The sensor did not start.
    StartFailed,
    /// A sample was taken; `altitude` is the altitude it comes to, in meters
    /// as a binary32 bit pattern.
    Measured { altitude: u32 },
    /// The sensor gave no sample.
    MeasureFailed,
    /// The pause is over.
    Rested,
}

/// What the altimeter's task is to do next.
#[derive(Clone, Copy, Debug, PartialEq, Eq, Structural)]
pub enum AltimeterAction {
    /// Start the sensor.
    Start,
    /// Take a sample.
    Measure,
    /// Sleep.
    Rest { millis: u64 },
    /// End the task.
    Stop,
}

/// One decision of the altimeter's task.
#[derive(Clone, Copy, Debug, PartialEq, Eq, Structural)]
pub struct AltimeterStep {
    /// The state after the event.
    pub next: Altimeter,
    /// What to do in that state.
    pub action: AltimeterAction,
    /// The fields to write.
    pub update: Update,
    /// The line to log, if the event was a failure.
    pub log: Option<LogEntry>,
}

impl Altimeter {
    /// What the task does in each state.
    pub open spec fn calls_for(self) -> AltimeterAction {
        match self {
            Altimeter::Starting => AltimeterAction::Start,
            Altimeter::Measuring => AltimeterAction::Measure,
            Altimeter::Resting => AltimeterAction::Rest { millis: SAMPLE_INTERVAL_MS },
            Altimeter::Stopped => AltimeterAction::Stop,
        }
    }

    /// What the task does in this state.
    pub fn action(&self) -> (action: AltimeterAction)
        ensures
            action == self.calls_for(),
    {
        match self {
            Altimeter::Starting => AltimeterAction::Start,
            Altimeter::Measuring => AltimeterAction::Measure,
            Altimeter::Resting => AltimeterAction::Rest { millis: SAMPLE_INTERVAL_MS },
            Altimeter::Stopped => AltimeterAction::Stop,
        }
    }

    /// The task at start-up, and what it does first: it starts the sensor.
    pub fn start() -> (step: AltimeterStep)
        ensures
            step == moved(Altimeter::Starting, Update::nothing(), None),
    {
        move_to(Altimeter::Starting, Update::none(), None)
    }
}

/// The step into state `next`, with its action.
pub open spec fn moved(next: Altimeter, update: Update, log: Option<LogEntry>) -> AltimeterStep {
    AltimeterStep { next, action: next.calls_for(), update, log }
}

/// The write of a sample: the barometric altitude and no other field.
pub open spec fn altitude_write(altitude: u32) -> Update {
    Update { ln: None, lt: None, ga: None, aaa: Some(altitude), t: None }
}

/// The altimeter's rule.
///
/// - A sensor that started is sampled; one that did not start ends the task.
/// - A sample is written to the record, a failed read is logged; after
///   either, the task rests until the next sample is due.
/// - After the rest the sensor is sampled again.
/// - A task that has ended stays ended. Any other event that the state does
///   not wait for is logged and changes nothing.
pub open spec fn sample_rule(state: Altimeter, event: AltimeterEvent) -> AltimeterStep {
    match (state, event) {
        (Altimeter::Stopped, _) => moved(Altimeter::Stopped, Update::nothing(), None),
        (Altimeter::Starting, AltimeterEvent::Started) => moved(
            Altimeter::Measuring,
            Update::nothing(),
            None,
        ),
        (Altimeter::Starting, AltimeterEvent::StartFailed) => moved(
            Altimeter::Stopped,
            Update::nothing(),
            Some(LogEntry::AltimeterInitFailed),
        ),
        (Altimeter::Measuring, AltimeterEvent::Measured { altitude }) => moved(
            Altimeter::Resting,
            altitude_write(altitude),
            None,
        ),
        (Altimeter::Measuring, AltimeterEvent::MeasureFailed) => moved(
            Altimeter::Resting,
            Update::nothing(),
            Some(LogEntry::AltimeterReadFailed),
        ),
        (Altimeter::Resting, AltimeterEvent::Rested) => moved(
            Altimeter::Measuring,
            Update::nothing(),
            None,
        ),
        _ => moved(state, Update::nothing(), Some(LogEntry::OutOfStep)),
    }
}

fn move_to(next: Altimeter, update: Update, log: Option<LogEntry>) -> (step: AltimeterStep)
    ensures
        step == moved(next, update, log),
{
    AltimeterStep { next, action: next.action(), update, log }
}

/// One step of the altimeter's task: the state, the action, the write and
/// the log line that follow from `state` and `event` by [`sample_rule`].
pub fn sample(state: Altimeter, event: AltimeterEvent) -> (step: AltimeterStep)
    ensures
        step == sample_rule(state, event),
{
    match (state, event) {
        (Altimeter::Stopped, _) => move_to(Altimeter::Stopped, Update::none(), None),
        (Altimeter::Starting, AltimeterEvent::Started) => move_to(
            Altimeter::Measuring,
            Update::none(),
            None,
        ),
        (Altimeter::Starting, AltimeterEvent::StartFailed) => move_to(
            Altimeter::Stopped,
            Update::none(),
            Some(LogEntry::AltimeterInitFailed),
        ),
        (Altimeter::Measuring, AltimeterEvent::Measured { altitude }) => move_to(
            Altimeter::Resting,
            Update { ln: None, lt: None, ga: None, aaa: Some(altitude), t: None },
            None,
        ),
        (Altimeter::Measuring, AltimeterEvent::MeasureFailed) => move_to(
            Altimeter::Resting,
            Update::none(),
            Some(LogEntry::AltimeterReadFailed),
        ),
        (Altimeter::Resting, AltimeterEvent::Rested) => move_to(
            Altimeter::Measuring,
            Update::none(),
            None,
        ),
        _ => move_to(state, Update::none(), Some(LogEntry::OutOfStep)),
    }
}

/// The altimeter writes the barometric altitude and nothing else, and only
/// when a sample was taken.
pub proof fn lemma_altimeter_writes_only_its_field(state: Altimeter, event: AltimeterEvent)
    ensures
        ({
            let update = sample_rule(state, event).update;
            &&& update.ln is None
            &&& update.lt is None
            &&& update.ga is None
            &&& update.t is None
            &&& update.aaa is Some <==> state == Altimeter::Measuring && event is Measured
        }),
{
}

/// A sensor that did not start is never touched again: the task stays ended
/// whatever is reported to it, and writes and logs nothing.
pub proof fn lemma_stopped_stays_stopped(event: AltimeterEvent)
    ensures
        sample_rule(Altimeter::Stopped, event) == moved(
            Altimeter::Stopped,
            Update::nothing(),
            None,
        ),
        Altimeter::Stopped.calls_for() == AltimeterAction::Stop,
{
}

} // verus!
