//! The radio link.
//!
//! A node is either a transmitter or a receiver. Both are state machines over
//! a radio driver that this module never touches: the task that owns the
//! radio performs the [`TransmitterAction`] or [`ReceiverAction`] it is
//! handed, under the deadline the action names, and reports what came of it
//! as an event. [`transmit`] and [`receive`] decide what happens next.
//!
//! No failure ends a task and none is retried within a cycle: the transmitter
//! gives the cycle up and waits for the next one, the receiver arms the radio
//! again. Each failure is logged once.

use crate::codec::{
    decode, encode, lemma_round_trip, lemma_wire_len, parse, wire, DecodeError, EncodeOverflow,
};
use crate::log::{LogEntry, RadioOperation};
use crate::state::State;
use vstd::prelude::*;
use vstd::slice::slice_subrange;

verus! {

/// Carrier frequency.
pub const LORA_FREQUENCY_IN_HZ: u32 = 433_000_000;

/// The largest payload the radio takes.
pub const LORA_MAX_PACKET_SIZE_BYTES: usize = 255;

/// Pause of the transmitter between two packets.
pub const TX_INTERVAL_MS: u64 = 3_000;

/// Deadline for loading a packet into the radio.
pub const PREPARE_TX_TIMEOUT_MS: u64 = 100;

/// Deadline for sending a packet.
pub const TX_TIMEOUT_MS: u64 = 30_000;

/// Deadline for arming the receiver.
pub const PREPARE_RX_TIMEOUT_MS: u64 = 10_000;

/// Deadline for a packet to arrive, after which the receiver is armed anew.
pub const RX_TIMEOUT_MS: u64 = 60_000;

/// Transmit power in dBm.
pub const TX_POWER_DBM: i32 = 20;

/// Modulation settings that both ends of the link agree on beforehand.
#[derive(Clone, Copy, Debug, PartialEq, Eq, Structural)]
pub struct ModulationParameters {
    /// Chips per symbol as a power of two.
    pub spreading_factor: u8,
    /// Channel width in Hz.
    pub bandwidth_in_hz: u32,
    /// Transmitted bits per four bits of payload.
    pub coding_rate_denominator: u8,
    /// Carrier frequency in Hz.
    pub frequency_in_hz: u32,
}

/// Packet settings that both ends of the link agree on beforehand.
#[derive(Clone, Copy, Debug, PartialEq, Eq, Structural)]
pub struct PacketParameters {
    /// Symbols of preamble before a packet.
    pub preamble_length: u16,
    /// Whether packets go without the header that tells their length.
    pub implicit_header: bool,
    /// The longest payload a receiver expects.
    pub max_payload_length: u8,
    /// Whether the radio appends and checks a checksum.
    pub crc_on: bool,
    /// Whether the IQ signals are inverted.
    pub iq_inverted: bool,
}

/// The modulation of this link: spreading factor 8 on 62.5 kHz with coding
/// rate 4/8 at 433 MHz, which carries a little under 1 kbit/s.
pub fn create_lora_modulation_parameters() -> (p: ModulationParameters)
    ensures
        p.spreading_factor == 8,
        p.bandwidth_in_hz == 62_500,
        p.coding_rate_denominator == 8,
        p.frequency_in_hz == LORA_FREQUENCY_IN_HZ,
{
    ModulationParameters {
        spreading_factor: 8,
        bandwidth_in_hz: 62_500,
        coding_rate_denominator: 8,
        frequency_in_hz: LORA_FREQUENCY_IN_HZ,
    }
}

/// The packet settings of this link: 16 symbols of preamble, explicit
/// header, payloads of up to 255 bytes, checksum on, IQ not inverted.
pub fn create_lora_packet_parameters() -> (p: PacketParameters)
    ensures
        p.preamble_length == 16,
        !p.implicit_header,
        p.max_payload_length == LORA_MAX_PACKET_SIZE_BYTES,
        p.crc_on,
        !p.iq_inverted,
{
    PacketParameters {
        preamble_length: 16,
        implicit_header: false,
        max_payload_length: 255,
        crc_on: true,
        iq_inverted: false,
    }
}

// ---------------------------------------------------------------------------
// Frames
// ---------------------------------------------------------------------------

/// One packet: a buffer of the radio's maximum payload size and the number of
/// bytes in it that count. The bytes after those are padding.
///
/// A frame lives for one transmit or receive operation and has one owner at
/// a time, so it can be moved but not copied.
#[derive(Debug, PartialEq, Eq)]
pub struct RadioFrame {
    bytes: [u8; 255],
    len: u8,
}

impl View for RadioFrame {
    type V = Seq<u8>;

    /// The payload: the bytes that count.
    closed spec fn view(&self) -> Seq<u8> {
        self.bytes@.take(self.len as int)
    }
}

impl RadioFrame {
    /// The frame that holds the first `len` bytes of `bytes`.
    pub fn new(bytes: [u8; 255], len: u8) -> (frame: RadioFrame)
        ensures
            frame@ == bytes@.take(len as int),
    {
        RadioFrame { bytes, len }
    }

    /// The frame whose payload is the encoding of `record`.
    ///
    /// Fails exactly when the encoding is longer than the radio's maximum
    /// payload, which no record's is (see [`lemma_every_record_fits`]).
    pub fn from_record(record: &State) -> (r: Result<RadioFrame, EncodeOverflow>)
        ensures
            match r {
                Ok(frame) => {
                    &&& wire(*record).len() <= LORA_MAX_PACKET_SIZE_BYTES
                    &&& frame@ == wire(*record)
                },
                Err(e) => {
                    &&& wire(*record).len() > LORA_MAX_PACKET_SIZE_BYTES
                    &&& e.needed == wire(*record).len()
                    &&& e.available == LORA_MAX_PACKET_SIZE_BYTES
                },
            },
    {
        let mut bytes: [u8; 255] = [0u8; 255];
        match encode(record, &mut bytes) {
            Ok(n) => {
                Ok(RadioFrame { bytes, len: n as u8 })
            },
            Err(e) => Err(e),
        }
    }

    /// The number of payload bytes.
    pub fn len(&self) -> (n: usize)
        ensures
            n == self@.len(),
            n <= LORA_MAX_PACKET_SIZE_BYTES,
    {
        self.len as usize
    }

    /// The payload.
    pub fn payload(&self) -> (bytes: &[u8])
        ensures
            bytes@ == self@,
    {
        slice_subrange(self.bytes.as_slice(), 0, self.len as usize)
    }

    /// The record that the payload holds.
    pub fn to_record(&self) -> (r: Result<State, DecodeError>)
        ensures
            r == parse(self@),
    {
        decode(self.payload())
    }
}

/// No record is too long for a packet, so [`RadioFrame::from_record`] never
/// fails and the transmitter never has to give a cycle up for it.
pub proof fn lemma_every_record_fits(record: State)
    ensures
        wire(record).len() <= LORA_MAX_PACKET_SIZE_BYTES,
{
    lemma_wire_len(record);
}

/// A frame made from a record gives that record back.
pub proof fn lemma_frame_round_trip(record: State, frame: RadioFrame)
    requires
        frame@ == wire(record),
    ensures
        parse(frame@) == Ok::<State, DecodeError>(record),
{
    lemma_round_trip(record, Seq::empty());
}

// ---------------------------------------------------------------------------
// What the radio reports
// ---------------------------------------------------------------------------

/// How a radio operation under a deadline ended.
#[derive(Clone, Copy, Debug, PartialEq, Eq, Structural)]
pub enum Outcome {
    /// The operation completed.
    Done,
    /// The radio reported an error.
    Failed,
    /// The deadline passed first.
    TimedOut,
}

/// The log line for an operation that ended as `outcome`: none when it
/// completed, else one that names the operation and, for a deadline that
/// passed, the deadline.
pub open spec fn outcome_log(operation: RadioOperation, outcome: Outcome, deadline_ms: u64) -> Option<
    LogEntry,
> {
    match outcome {
        Outcome::Done => None,
        Outcome::Failed => Some(LogEntry::RadioFailed { operation }),
        Outcome::TimedOut => Some(LogEntry::RadioTimedOut { operation, after_ms: deadline_ms }),
    }
}

fn log_outcome(operation: RadioOperation, outcome: Outcome, deadline_ms: u64) -> (log: Option<
    LogEntry,
>)
    ensures
        log == outcome_log(operation, outcome, deadline_ms),
{
    match outcome {
        Outcome::Done => None,
        Outcome::Failed => Some(LogEntry::RadioFailed { operation }),
        Outcome::TimedOut => Some(LogEntry::RadioTimedOut { operation, after_ms: deadline_ms }),
    }
}

// ---------------------------------------------------------------------------
// The transmitter
// ---------------------------------------------------------------------------

/// Where the transmitter is in its cycle.
#[derive(Clone, Copy, Debug, PartialEq, Eq, Structural)]
pub enum Transmitter {
    /// Waiting for the next transmission to fall due.
    Idle,
    /// Loading a packet into the radio.
    Preparing,
    /// Sending the loaded packet.
    Active,
}

/// What the transmitter's task reports back.
#[derive(Clone, Copy, Debug, PartialEq, Eq, Structural)]
pub enum TransmitterEvent {
    /// The pause is over; the store held `snapshot` when it ended.
    IntervalElapsed { snapshot: State },
    /// Loading the packet ended.
    Prepared(Outcome),
    /// Sending the packet ended.
    Transmitted(Outcome),
}

/// What the transmitter's task is to do next. `F` is the frame: a
/// [`RadioFrame`] in a running program, its payload in contracts.
#[derive(Debug, PartialEq, Eq)]
pub enum TransmitterAction<F> {
    /// Sleep, then read the store and report [`TransmitterEvent::IntervalElapsed`].
    Wait { millis: u64 },
    /// Load the payload of `frame` into the radio and report
    /// [`TransmitterEvent::Prepared`].
    Prepare { frame: F, power_in_dbm: i32, timeout_ms: u64 },
    /// Send the loaded packet and report [`TransmitterEvent::Transmitted`].
    Transmit { timeout_ms: u64 },
}

/// One decision of the transmitter.
#[derive(Debug, PartialEq, Eq)]
pub struct TransmitterStep<F> {
    /// The state after the event.
    pub next: Transmitter,
    /// What to do in that state.
    pub action: TransmitterAction<F>,
    /// The line to log, if the event was a failure.
    pub log: Option<LogEntry>,
}

impl View for TransmitterAction<RadioFrame> {
    type V = TransmitterAction<Seq<u8>>;

    open spec fn view(&self) -> TransmitterAction<Seq<u8>> {
        match *self {
            TransmitterAction::Wait { millis } => TransmitterAction::Wait { millis },
            TransmitterAction::Prepare { frame, power_in_dbm, timeout_ms } => {
                TransmitterAction::Prepare { frame: frame@, power_in_dbm, timeout_ms }
            },
            TransmitterAction::Transmit { timeout_ms } => TransmitterAction::Transmit {
                timeout_ms,
            },
        }
    }
}

impl View for TransmitterStep<RadioFrame> {
    type V = TransmitterStep<Seq<u8>>;

    open spec fn view(&self) -> TransmitterStep<Seq<u8>> {
        TransmitterStep { next: self.next, action: self.action@, log: self.log }
    }
}

/// The step back to waiting for the next cycle, with `log` in the log.
pub open spec fn idling(log: Option<LogEntry>) -> TransmitterStep<Seq<u8>> {
    TransmitterStep {
        next: Transmitter::Idle,
        action: TransmitterAction::Wait { millis: TX_INTERVAL_MS },
        log,
    }
}

/// The transmitter's rule.
///
/// - When the pause is over, the snapshot is encoded. If it fits a packet,
///   the packet is loaded into the radio; if not, the cycle is given up.
/// - When loading completed, the packet is sent; when it failed or ran out of
///   time, the cycle is given up.
/// - When sending ended, however it ended, the transmitter waits for the next
///   cycle.
/// - An event that the state does not wait for gives the cycle up as well.
pub open spec fn transmit_rule(state: Transmitter, event: TransmitterEvent) -> TransmitterStep<
    Seq<u8>,
> {
    match (state, event) {
        (Transmitter::Idle, TransmitterEvent::IntervalElapsed { snapshot }) => {
            if wire(snapshot).len() <= LORA_MAX_PACKET_SIZE_BYTES {
                TransmitterStep {
                    next: Transmitter::Preparing,
                    action: TransmitterAction::Prepare {
                        frame: wire(snapshot),
                        power_in_dbm: TX_POWER_DBM,
                        timeout_ms: PREPARE_TX_TIMEOUT_MS,
                    },
                    log: None,
                }
            } else {
                idling(
                    Some(
                        LogEntry::EncodeFailed(
                            EncodeOverflow {
                                needed: wire(snapshot).len() as usize,
                                available: LORA_MAX_PACKET_SIZE_BYTES,
                            },
                        ),
                    ),
                )
            }
        },
        (Transmitter::Preparing, TransmitterEvent::Prepared(Outcome::Done)) => TransmitterStep {
            next: Transmitter::Active,
            action: TransmitterAction::Transmit { timeout_ms: TX_TIMEOUT_MS },
            log: None,
        },
        (Transmitter::Preparing, TransmitterEvent::Prepared(outcome)) => idling(
            outcome_log(RadioOperation::PrepareTx, outcome, PREPARE_TX_TIMEOUT_MS),
        ),
        (Transmitter::Active, TransmitterEvent::Transmitted(outcome)) => idling(
            outcome_log(RadioOperation::Tx, outcome, TX_TIMEOUT_MS),
        ),
        _ => idling(Some(LogEntry::OutOfStep)),
    }
}

fn idle(log: Option<LogEntry>) -> (step: TransmitterStep<RadioFrame>)
    ensures
        step@ == idling(log),
{
    TransmitterStep {
        next: Transmitter::Idle,
        action: TransmitterAction::Wait { millis: TX_INTERVAL_MS },
        log,
    }
}

impl Transmitter {
    /// The transmitter at start-up, and what it does first: it waits.
    pub fn start() -> (step: TransmitterStep<RadioFrame>)
        ensures
            step@ == idling(None),
    {
        idle(None)
    }
}

/// One step of the transmitter: the state and the action that follow from
/// `state` and `event` by [`transmit_rule`].
pub fn transmit(state: Transmitter, event: TransmitterEvent) -> (step: TransmitterStep<RadioFrame>)
    ensures
        step@ == transmit_rule(state, event),
{
    match (state, event) {
        (Transmitter::Idle, TransmitterEvent::IntervalElapsed { snapshot }) => {
            match RadioFrame::from_record(&snapshot) {
                Ok(frame) => TransmitterStep {
                    next: Transmitter::Preparing,
                    action: TransmitterAction::Prepare {
                        frame,
                        power_in_dbm: TX_POWER_DBM,
                        timeout_ms: PREPARE_TX_TIMEOUT_MS,
                    },
                    log: None,
                },
                Err(overflow) => idle(Some(LogEntry::EncodeFailed(overflow))),
            }
        },
        (Transmitter::Preparing, TransmitterEvent::Prepared(Outcome::Done)) => TransmitterStep {
            next: Transmitter::Active,
            action: TransmitterAction::Transmit { timeout_ms: TX_TIMEOUT_MS },
            log: None,
        },
        (Transmitter::Preparing, TransmitterEvent::Prepared(outcome)) => idle(
            log_outcome(RadioOperation::PrepareTx, outcome, PREPARE_TX_TIMEOUT_MS),
        ),
        (Transmitter::Active, TransmitterEvent::Transmitted(outcome)) => idle(
            log_outcome(RadioOperation::Tx, outcome, TX_TIMEOUT_MS),
        ),
        _ => idle(Some(LogEntry::OutOfStep)),
    }
}

// ---------------------------------------------------------------------------
// The receiver
// ---------------------------------------------------------------------------

/// Where the receiver is in its cycle.
#[derive(Clone, Copy, Debug, PartialEq, Eq, Structural)]
pub enum Receiver {
    /// Arming the radio for continuous listening.
    Preparing,
    /// Waiting for a packet.
    Active,
}

/// What the receiver's task reports back.
#[derive(Debug, PartialEq, Eq)]
pub enum ReceiverEvent {
    /// Arming the radio ended.
    Armed(Outcome),
    /// A packet arrived.
    Received(RadioFrame),
    /// The radio reported an error while waiting for a packet.
    ReceiveFailed,
    /// No packet arrived within the deadline.
    ReceiveTimedOut,
}

/// What the receiver's task is to do next.
#[derive(Clone, Copy, Debug, PartialEq, Eq, Structural)]
pub enum ReceiverAction {
    /// Arm the radio for continuous listening and report
    /// [`ReceiverEvent::Armed`].
    Arm { timeout_ms: u64 },
    /// Wait for a packet and report what came.
    Listen { timeout_ms: u64 },
}

/// One decision of the receiver.
#[derive(Clone, Copy, Debug, PartialEq, Eq, Structural)]
pub struct ReceiverStep {
    /// The state after the event.
    pub next: Receiver,
    /// What to do in that state.
    pub action: ReceiverAction,
    /// The line to log, if the event was a failure.
    pub log: Option<LogEntry>,
    /// The record to publish, if a packet arrived that holds one.
    pub publish: Option<State>,
}

/// The step that arms the radio anew, with `log` in the log and `publish` to
/// be published.
pub open spec fn rearmed(log: Option<LogEntry>, publish: Option<State>) -> ReceiverStep {
    ReceiverStep {
        next: Receiver::Preparing,
        action: ReceiverAction::Arm { timeout_ms: PREPARE_RX_TIMEOUT_MS },
        log,
        publish,
    }
}

/// The receiver's rule.
///
/// - When arming completed, the receiver listens; when it failed or ran out
///   of time, it arms again at once.
/// - When a packet arrived, its payload is decoded: a record is published, a
///   payload that holds none is dropped. Either way the radio is armed anew.
/// - When listening failed or ran out of time, the radio is armed anew.
/// - An event that the state does not wait for arms the radio anew as well.
pub open spec fn receive_rule(state: Receiver, event: ReceiverEvent) -> ReceiverStep {
    match (state, event) {
        (Receiver::Preparing, ReceiverEvent::Armed(Outcome::Done)) => ReceiverStep {
            next: Receiver::Active,
            action: ReceiverAction::Listen { timeout_ms: RX_TIMEOUT_MS },
            log: None,
            publish: None,
        },
        (Receiver::Preparing, ReceiverEvent::Armed(outcome)) => rearmed(
            outcome_log(RadioOperation::PrepareRx, outcome, PREPARE_RX_TIMEOUT_MS),
            None,
        ),
        (Receiver::Active, ReceiverEvent::Received(frame)) => match parse(frame@) {
            Ok(record) => rearmed(None, Some(record)),
            Err(e) => rearmed(Some(LogEntry::DecodeFailed(e)), None),
        },
        (Receiver::Active, ReceiverEvent::ReceiveFailed) => rearmed(
            outcome_log(RadioOperation::Rx, Outcome::Failed, RX_TIMEOUT_MS),
            None,
        ),
        (Receiver::Active, ReceiverEvent::ReceiveTimedOut) => rearmed(
            outcome_log(RadioOperation::Rx, Outcome::TimedOut, RX_TIMEOUT_MS),
            None,
        ),
        _ => rearmed(Some(LogEntry::OutOfStep), None),
    }
}

fn rearm(log: Option<LogEntry>, publish: Option<State>) -> (step: ReceiverStep)
    ensures
        step == rearmed(log, publish),
{
    ReceiverStep {
        next: Receiver::Preparing,
        action: ReceiverAction::Arm { timeout_ms: PREPARE_RX_TIMEOUT_MS },
        log,
        publish,
    }
}

impl Receiver {
    /// The receiver at start-up, and what it does first: it arms the radio.
    pub fn start() -> (step: ReceiverStep)
        ensures
            step == rearmed(None, None),
    {
        rearm(None, None)
    }
}

/// One step of the receiver: the state, the action and the record to publish
/// that follow from `state` and `event` by [`receive_rule`].
pub fn receive(state: Receiver, event: ReceiverEvent) -> (step: ReceiverStep)
    ensures
        step == receive_rule(state, event),
{
    match (state, event) {
        (Receiver::Preparing, ReceiverEvent::Armed(Outcome::Done)) => ReceiverStep {
            next: Receiver::Active,
            action: ReceiverAction::Listen { timeout_ms: RX_TIMEOUT_MS },
            log: None,
            publish: None,
        },
        (Receiver::Preparing, ReceiverEvent::Armed(outcome)) => rearm(
            log_outcome(RadioOperation::PrepareRx, outcome, PREPARE_RX_TIMEOUT_MS),
            None,
        ),
        (Receiver::Active, ReceiverEvent::Received(frame)) => match frame.to_record() {
            Ok(record) => rearm(None, Some(record)),
            Err(e) => rearm(Some(LogEntry::DecodeFailed(e)), None),
        },
        (Receiver::Active, ReceiverEvent::ReceiveFailed) => rearm(
            log_outcome(RadioOperation::Rx, Outcome::Failed, RX_TIMEOUT_MS),
            None,
        ),
        (Receiver::Active, ReceiverEvent::ReceiveTimedOut) => rearm(
            log_outcome(RadioOperation::Rx, Outcome::TimedOut, RX_TIMEOUT_MS),
            None,
        ),
        _ => rearm(Some(LogEntry::OutOfStep), None),
    }
}

// ---------------------------------------------------------------------------
// Laws of the link
// ---------------------------------------------------------------------------

/// The receiver's state after the events `events`, taken first to last from
/// `start`, and the lines it logged on the way.
pub open spec fn receiver_after(start: Receiver, events: Seq<ReceiverEvent>) -> (
    Receiver,
    Seq<LogEntry>,
)
    decreases events.len(),
{
    if events.len() == 0 {
        (start, Seq::empty())
    } else {
        let (state, logged) = receiver_after(start, events.drop_last());
        let step = receive_rule(state, events.last());
        match step.log {
            Some(entry) => (step.next, logged.push(entry)),
            None => (step.next, logged),
        }
    }
}

/// What a receiver sees on a silent channel: `cycles` times over, arming
/// completes and then no packet arrives within the deadline.
pub open spec fn silence(cycles: nat) -> Seq<ReceiverEvent>
    decreases cycles,
{
    if cycles == 0 {
        Seq::empty()
    } else {
        silence((cycles - 1) as nat).push(ReceiverEvent::Armed(Outcome::Done)).push(
            ReceiverEvent::ReceiveTimedOut,
        )
    }
}

/// Whatever happens, the receiver goes on: every event but a completed
/// arming sends it back to arming the radio, and a completed arming makes it
/// listen.
pub proof fn lemma_receiver_goes_on(state: Receiver, event: ReceiverEvent)
    ensures
        ({
            let step = receive_rule(state, event);
            if state == Receiver::Preparing && event == ReceiverEvent::Armed(Outcome::Done) {
                &&& step.next == Receiver::Active
                &&& step.action == (ReceiverAction::Listen { timeout_ms: RX_TIMEOUT_MS })
            } else {
                &&& step.next == Receiver::Preparing
                &&& step.action == (ReceiverAction::Arm { timeout_ms: PREPARE_RX_TIMEOUT_MS })
            }
        }),
{
}

/// A receiver that never hears a packet keeps arming and listening: after
/// any number of silent cycles it is about to arm the radio again, and it has
/// logged one timeout for each cycle and nothing else.
pub proof fn lemma_receiver_outlasts_silence(cycles: nat)
    ensures
        receiver_after(Receiver::Preparing, silence(cycles)) == (
            Receiver::Preparing,
            Seq::new(
                cycles,
                |i: int|
                    LogEntry::RadioTimedOut {
                        operation: RadioOperation::Rx,
                        after_ms: RX_TIMEOUT_MS,
                    },
            ),
        ),
    decreases cycles,
{
    if cycles > 0 {
        let before = silence((cycles - 1) as nat);
        let armed = before.push(ReceiverEvent::Armed(Outcome::Done));
        lemma_receiver_outlasts_silence((cycles - 1) as nat);
        assert(armed.drop_last() =~= before);
        assert(silence(cycles).drop_last() =~= armed);
        assert(receiver_after(Receiver::Preparing, armed).0 == Receiver::Active);
    }
}

/// What one end sends, the other publishes: the transmitter loads the
/// encoding of its snapshot, and a listening receiver that gets a packet
/// starting with that encoding publishes the snapshot, logs nothing and arms
/// the radio anew.
pub proof fn lemma_link_delivers(snapshot: State, received: RadioFrame)
    requires
        wire(snapshot).is_prefix_of(received@),
    ensures
        transmit_rule(Transmitter::Idle, TransmitterEvent::IntervalElapsed { snapshot }).action
            == (TransmitterAction::Prepare {
            frame: wire(snapshot),
            power_in_dbm: TX_POWER_DBM,
            timeout_ms: PREPARE_TX_TIMEOUT_MS,
        }),
        receive_rule(Receiver::Active, ReceiverEvent::Received(received)) == rearmed(
            None,
            Some(snapshot),
        ),
{
    lemma_every_record_fits(snapshot);
    let sent = wire(snapshot);
    let tail = received@.subrange(sent.len() as int, received@.len() as int);
    assert(received@ =~= sent + tail);
    lemma_round_trip(snapshot, tail);
}

/// Whatever happens, the transmitter goes on: no event leaves it without a
/// next action, and every event but the two that advance a cycle sends it
/// back to waiting for the next one.
pub proof fn lemma_transmitter_goes_on(state: Transmitter, event: TransmitterEvent)
    ensures
        ({
            let step = transmit_rule(state, event);
            if state == Transmitter::Idle && event is IntervalElapsed {
                &&& step.next == Transmitter::Preparing
                &&& step.action is Prepare
                &&& step.log is None
            } else if state == Transmitter::Preparing && event == TransmitterEvent::Prepared(
                Outcome::Done,
            ) {
                &&& step.next == Transmitter::Active
                &&& step.action == (TransmitterAction::<Seq<u8>>::Transmit {
                    timeout_ms: TX_TIMEOUT_MS,
                })
            } else {
                &&& step.next == Transmitter::Idle
                &&& step.action == (TransmitterAction::<Seq<u8>>::Wait { millis: TX_INTERVAL_MS })
            }
        }),
{
    if let TransmitterEvent::IntervalElapsed { snapshot } = event {
        lemma_every_record_fits(snapshot);
    }
}

} // verus!
