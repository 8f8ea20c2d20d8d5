//! What the tasks report when something goes wrong. An entry names the kind
//! of failure and carries what is known about it; writing it to the log sink
//! is the caller's part.

use crate::codec::{DecodeError, EncodeOverflow};
use vstd::prelude::*;

verus! {

/// The radio operations that run under a deadline.
#[derive(Clone, Copy, Debug, PartialEq, Eq, Structural)]
pub enum RadioOperation {
    /// Loading a packet and configuring the radio to send it.
    PrepareTx,
    /// Sending the loaded packet.
    Tx,
    /// Arming continuous listening.
    PrepareRx,
    /// Waiting for a packet.
    Rx,
}

/// One line of the failure log.
#[derive(Clone, Copy, Debug, PartialEq, Eq, Structural)]
pub enum LogEntry {
    /// The record does not fit a packet; the cycle sends nothing.
    EncodeFailed(EncodeOverflow),
    /// A received packet holds no record; it is dropped.
    DecodeFailed(DecodeError),
    /// The radio reported an error.
    RadioFailed { operation: RadioOperation },
    /// The radio did not answer within the deadline.
    RadioTimedOut { operation: RadioOperation, after_ms: u64 },
    /// An event arrived that the task was not waiting for.
    OutOfStep,
    /// The serial line of the satellite receiver gave an error.
    SerialReadFailed,
    /// The satellite receiver sent a sentence that does not parse.
    SentenceRejected,
    /// The altimeter did not start; its task ends.
    AltimeterInitFailed,
    /// The altimeter gave no sample this period.
    AltimeterReadFailed,
}

} // verus!
