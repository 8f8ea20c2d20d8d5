//! The satellite-navigation producer.
//!
//! The producer reads the receiver's serial line byte by byte and hands each
//! byte to a sentence parser. [`sample_uart`] decides what each reading does
//! to the telemetry record: a position fix writes the fields it carries, and
//! everything else (a byte in the middle of a sentence, a sentence without a
//! fix, a sentence that does not parse, a failed read) writes nothing, so a
//! damaged sentence never disturbs what good sentences wrote.

use crate::log::LogEntry;
use crate::state::{State, Update};
use vstd::prelude::*;

verus! {

/// A time of day in whole seconds.
#[derive(Clone, Copy, Debug, PartialEq, Eq, Structural)]
pub struct Time {
    pub hours: u8,
    pub minutes: u8,
    pub seconds: u8,
}

impl Time {
    /// True for a time that a clock can show.
    pub open spec fn on_clock(self) -> bool {
        self.hours < 24 && self.minutes < 60 && self.seconds < 60
    }

    /// The time as the decimal number `HHMMSS`.
    pub open spec fn packed(self) -> int {
        self.hours * 10000 + self.minutes * 100 + self.seconds
    }
}

/// Packs a time of day as the decimal number `HHMMSS`.
pub fn get_time(time: Time) -> (packed: i32)
    ensures
        packed == time.packed(),
{
    let h: i32 = (time.hours as i32) * 10000;
    let m: i32 = (time.minutes as i32) * 100;
    let s: i32 = time.seconds as i32;
    h + m + s
}

/// A packed clock time shows its hours, minutes and seconds as pairs of
/// decimal digits, so no two clock times pack to the same number.
pub proof fn lemma_packed_time_reads_back(time: Time)
    requires
        time.on_clock(),
    ensures
        time.packed() / 10000 == time.hours,
        time.packed() / 100 % 100 == time.minutes,
        time.packed() % 100 == time.seconds,
        0 <= time.packed() <= 235959,
{
}

/// What one read from the receiver's serial line came to. Positions and
/// altitudes are binary32 bit patterns, in decimal degrees and meters.
#[derive(Clone, Copy, Debug, PartialEq, Eq, Structural)]
pub enum Reading {
    /// The serial line gave an error instead of a byte.
    ReadFailed,
    /// The byte was taken; no sentence is complete yet.
    Incomplete,
    /// A sentence with position, time and, where the receiver has it,
    /// altitude is complete (GGA).
    Gga { latitude: u32, longitude: u32, altitude: Option<u32>, time: Time },
    /// A sentence with position and time is complete (GLL).
    Gll { latitude: u32, longitude: u32, time: Time },
    /// A sentence is complete that carries no fix.
    NoFix,
    /// The bytes up to here are no sentence; the parser starts over at the
    /// next sentence.
    Rejected,
}

/// What a reading leads to: the fields to write and, for a failure, the line
/// to log.
#[derive(Clone, Copy, Debug, PartialEq, Eq, Structural)]
pub struct GpsStep {
    pub update: Update,
    pub log: Option<LogEntry>,
}

impl Reading {
    /// True for a reading that carries a position fix.
    pub open spec fn is_fix(self) -> bool {
        self is Gga || self is Gll
    }

    /// The fields that the reading writes: those its sentence carries.
    pub open spec fn writes(self) -> Update {
        match self {
            Reading::Gga { latitude, longitude, altitude, time } => Update {
                ln: Some(longitude),
                lt: Some(latitude),
                ga: altitude,
                aaa: None,
                t: Some(time.packed() as i32),
            },
            Reading::Gll { latitude, longitude, time } => Update {
                ln: Some(longitude),
                lt: Some(latitude),
                ga: None,
                aaa: None,
                t: Some(time.packed() as i32),
            },
            _ => Update::nothing(),
        }
    }

    /// The line that the reading puts in the log, if any.
    pub open spec fn logs(self) -> Option<LogEntry> {
        match self {
            Reading::ReadFailed => Some(LogEntry::SerialReadFailed),
            Reading::Rejected => Some(LogEntry::SentenceRejected),
            _ => None,
        }
    }
}

/// Decides what one reading does: which fields of the record it writes and
/// what it logs. Only a fix writes, and only the fields its sentence carries;
/// a failed read and a rejected sentence are logged and write nothing.
pub fn sample_uart(reading: Reading) -> (step: GpsStep)
    ensures
        step.update == reading.writes(),
        step.log == reading.logs(),
{
    match reading {
        Reading::Gga { latitude, longitude, altitude, time } => GpsStep {
            update: Update {
                ln: Some(longitude),
                lt: Some(latitude),
                ga: altitude,
                aaa: None,
                t: Some(get_time(time)),
            },
            log: None,
        },
        Reading::Gll { latitude, longitude, time } => GpsStep {
            update: Update {
                ln: Some(longitude),
                lt: Some(latitude),
                ga: None,
                aaa: None,
                t: Some(get_time(time)),
            },
            log: None,
        },
        Reading::ReadFailed => GpsStep {
            update: Update::none(),
            log: Some(LogEntry::SerialReadFailed),
        },
        Reading::Rejected => GpsStep {
            update: Update::none(),
            log: Some(LogEntry::SentenceRejected),
        },
        Reading::Incomplete | Reading::NoFix => GpsStep { update: Update::none(), log: None },
    }
}

/// The record after the readings `readings`, taken first to last from
/// `start`.
pub open spec fn followed(start: State, readings: Seq<Reading>) -> State
    decreases readings.len(),
{
    if readings.len() == 0 {
        start
    } else {
        followed(start, readings.drop_last()).merged(readings.last().writes())
    }
}

/// A reading without a fix leaves every record as it is.
pub proof fn lemma_no_fix_writes_nothing(record: State, reading: Reading)
    requires
        !reading.is_fix(),
    ensures
        record.merged(reading.writes()) == record,
{
}

/// A fix without altitude keeps the altitude that an earlier fix wrote, and
/// no fix touches the barometric altitude.
pub proof fn lemma_fix_keeps_other_fields(record: State, reading: Reading)
    ensures
        record.merged(reading.writes()).aaa == record.aaa,
        reading is Gll ==> record.merged(reading.writes()).ga == record.ga,
{
}

/// The record after a stream of readings is the record after its fixes
/// alone: damaged sentences, failed reads and bytes in between leave no
/// trace.
pub proof fn lemma_only_fixes_count(start: State, readings: Seq<Reading>)
    ensures
        followed(start, readings) == followed(start, readings.filter(|r: Reading| r.is_fix())),
    decreases readings.len(),
{
    reveal(Seq::filter);
    if readings.len() > 0 {
        let before = readings.drop_last();
        let fixes = before.filter(|r: Reading| r.is_fix());
        lemma_only_fixes_count(start, before);
        if readings.last().is_fix() {
            assert(fixes.push(readings.last()).drop_last() =~= fixes);
        }
    }
}

} // verus!
