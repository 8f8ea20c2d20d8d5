//! The telemetry record: the latest known value of every field.
//!
//! Positions and altitudes are IEEE-754 binary32 numbers. They are carried as
//! their 32-bit patterns (`to_bits` / `from_bits`), which is also the form in
//! which they travel over the radio.

use vstd::prelude::*;

verus! {

/// One snapshot of the vehicle state. A field is `None` until its sensor has
/// delivered a first good sample.
#[derive(Clone, Copy, Debug, PartialEq, Eq, Structural)]
pub struct State {
    /// Longitude in decimal degrees, binary32 bit pattern.
    pub ln: Option<u32>,
    /// Latitude in decimal degrees, binary32 bit pattern.
    pub lt: Option<u32>,
    /// Altitude of the satellite fix in meters, binary32 bit pattern.
    pub ga: Option<u32>,
    /// Barometric altitude in meters, binary32 bit pattern.
    pub aaa: Option<u32>,
    /// Time of day of the satellite fix, packed as decimal `HHMMSS`.
    pub t: Option<i32>,
}

/// A partial write to the record: every field that is `Some` replaces the
/// stored value, every field that is `None` leaves it as it was.
#[derive(Clone, Copy, Debug, PartialEq, Eq, Structural)]
pub struct Update {
    pub ln: Option<u32>,
    pub lt: Option<u32>,
    pub ga: Option<u32>,
    pub aaa: Option<u32>,
    pub t: Option<i32>,
}

/// The value a field holds after a write: the written value if there is one,
/// else the value it held before.
pub open spec fn overwritten<T>(held: Option<T>, written: Option<T>) -> Option<T> {
    if written is Some {
        written
    } else {
        held
    }
}

impl Update {
    /// The write that touches no field.
    pub open spec fn nothing() -> Update {
        Update { ln: None, lt: None, ga: None, aaa: None, t: None }
    }

    /// The write that touches no field.
    pub fn none() -> (u: Update)
        ensures
            u == Update::nothing(),
    {
        Update { ln: None, lt: None, ga: None, aaa: None, t: None }
    }

    /// True when the write touches no field.
    pub fn is_empty(&self) -> (empty: bool)
        ensures
            empty <==> *self == Update::nothing(),
    {
        self.ln.is_none() && self.lt.is_none() && self.ga.is_none() && self.aaa.is_none()
            && self.t.is_none()
    }
}

impl State {
    /// The record in which nothing is known yet.
    pub open spec fn unknown() -> State {
        State { ln: None, lt: None, ga: None, aaa: None, t: None }
    }

    /// The record after the partial write `u`.
    pub open spec fn merged(self, u: Update) -> State {
        State {
            ln: overwritten(self.ln, u.ln),
            lt: overwritten(self.lt, u.lt),
            ga: overwritten(self.ga, u.ga),
            aaa: overwritten(self.aaa, u.aaa),
            t: overwritten(self.t, u.t),
        }
    }

    /// The record as it is at start-up: every field unknown.
    pub fn new() -> (s: State)
        ensures
            s == State::unknown(),
    {
        State { ln: None, lt: None, ga: None, aaa: None, t: None }
    }

    /// Applies the partial write `u` and returns the new record.
    pub fn apply(self, u: Update) -> (s: State)
        ensures
            s == self.merged(u),
    {
        State {
            ln: if u.ln.is_some() { u.ln } else { self.ln },
            lt: if u.lt.is_some() { u.lt } else { self.lt },
            ga: if u.ga.is_some() { u.ga } else { self.ga },
            aaa: if u.aaa.is_some() { u.aaa } else { self.aaa },
            t: if u.t.is_some() { u.t } else { self.t },
        }
    }
}

} // verus!
