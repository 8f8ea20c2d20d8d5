use stack_ripper::codec::{encode, DecodeError};
use stack_ripper::log::{LogEntry, RadioOperation};
use stack_ripper::lora::{
    create_lora_modulation_parameters, create_lora_packet_parameters, receive, transmit, Outcome,
    RadioFrame, Receiver, ReceiverAction, ReceiverEvent, ReceiverStep, Transmitter,
    TransmitterAction, TransmitterEvent, LORA_FREQUENCY_IN_HZ, LORA_MAX_PACKET_SIZE_BYTES,
    PREPARE_RX_TIMEOUT_MS, PREPARE_TX_TIMEOUT_MS, RX_TIMEOUT_MS, TX_INTERVAL_MS, TX_POWER_DBM,
    TX_TIMEOUT_MS,
};
use stack_ripper::state::State;

fn snapshot() -> State {
    State {
        ln: Some(13.4f32.to_bits()),
        lt: Some(52.5f32.to_bits()),
        ga: Some(34.0f32.to_bits()),
        aaa: Some(36.5f32.to_bits()),
        t: Some(101500),
    }
}

fn frame_of(bytes: &[u8]) -> RadioFrame {
    let mut buf = [0u8; 255];
    buf[..bytes.len()].copy_from_slice(bytes);
    RadioFrame::new(buf, bytes.len() as u8)
}

fn rearm(log: Option<LogEntry>, publish: Option<State>) -> ReceiverStep {
    ReceiverStep {
        next: Receiver::Preparing,
        action: ReceiverAction::Arm { timeout_ms: 10_000 },
        log,
        publish,
    }
}

#[test]
fn link_constants() {
    assert_eq!(LORA_FREQUENCY_IN_HZ, 433_000_000);
    assert_eq!(LORA_MAX_PACKET_SIZE_BYTES, 255);
    assert_eq!(TX_INTERVAL_MS, 3_000);
    assert_eq!(PREPARE_TX_TIMEOUT_MS, 100);
    assert_eq!(TX_TIMEOUT_MS, 30_000);
    assert_eq!(PREPARE_RX_TIMEOUT_MS, 10_000);
    assert_eq!(RX_TIMEOUT_MS, 60_000);
    assert_eq!(TX_POWER_DBM, 20);
    let m = create_lora_modulation_parameters();
    assert_eq!(
        (m.spreading_factor, m.bandwidth_in_hz, m.coding_rate_denominator, m.frequency_in_hz),
        (8, 62_500, 8, 433_000_000)
    );
    let p = create_lora_packet_parameters();
    assert_eq!(
        (p.preamble_length, p.implicit_header, p.max_payload_length, p.crc_on, p.iq_inverted),
        (16, false, 255, true, false)
    );
}

#[test]
fn frame_holds_the_encoding() {
    let frame = RadioFrame::from_record(&snapshot()).unwrap();
    let mut buf = [0u8; 255];
    let n = encode(&snapshot(), &mut buf).unwrap();
    assert_eq!(frame.len(), n);
    assert_eq!(frame.payload(), &buf[..n]);
    assert_eq!(frame.to_record(), Ok(snapshot()));
}

#[test]
fn frame_counts_only_its_first_bytes() {
    let mut buf = [0xeeu8; 255];
    buf[..5].copy_from_slice(&[0, 0, 0, 0, 0]);
    let frame = RadioFrame::new(buf, 5);
    assert_eq!(frame.len(), 5);
    assert_eq!(frame.payload(), &[0u8, 0, 0, 0, 0][..]);
    assert_eq!(frame.to_record(), Ok(State::new()));
    // One byte less and the record is cut short, whatever the padding holds.
    assert_eq!(RadioFrame::new(buf, 4).to_record(), Err(DecodeError::UnexpectedEnd));
    assert_eq!(RadioFrame::new(buf, 0).payload(), &[0u8; 0][..]);
    assert_eq!(RadioFrame::new([0u8; 255], 255).len(), 255);
}

#[test]
fn transmitter_starts_by_waiting() {
    let start = Transmitter::start();
    assert_eq!(start.next, Transmitter::Idle);
    assert_eq!(start.action, TransmitterAction::Wait { millis: 3_000 });
    assert_eq!(start.log, None);
}

#[test]
fn transmitter_runs_a_full_cycle() {
    let step = transmit(Transmitter::Idle, TransmitterEvent::IntervalElapsed { snapshot: snapshot() });
    assert_eq!(step.next, Transmitter::Preparing);
    assert_eq!(step.log, None);
    match step.action {
        TransmitterAction::Prepare { frame, power_in_dbm, timeout_ms } => {
            assert_eq!(frame.to_record(), Ok(snapshot()));
            assert_eq!(frame.payload(), RadioFrame::from_record(&snapshot()).unwrap().payload());
            assert_eq!(power_in_dbm, 20);
            assert_eq!(timeout_ms, 100);
        }
        other => panic!("expected a packet to load, got {:?}", other),
    }

    let step = transmit(step.next, TransmitterEvent::Prepared(Outcome::Done));
    assert_eq!(step.next, Transmitter::Active);
    assert_eq!(step.action, TransmitterAction::Transmit { timeout_ms: 30_000 });
    assert_eq!(step.log, None);

    let step = transmit(step.next, TransmitterEvent::Transmitted(Outcome::Done));
    assert_eq!(step.next, Transmitter::Idle);
    assert_eq!(step.action, TransmitterAction::Wait { millis: 3_000 });
    assert_eq!(step.log, None);
}

#[test]
fn transmitter_sends_an_empty_record_too() {
    let step = transmit(Transmitter::Idle, TransmitterEvent::IntervalElapsed { snapshot: State::new() });
    match step.action {
        TransmitterAction::Prepare { frame, .. } => assert_eq!(frame.payload(), &[0u8, 0, 0, 0, 0][..]),
        other => panic!("expected a packet to load, got {:?}", other),
    }
}

#[test]
fn transmitter_gives_the_cycle_up_on_every_failure() {
    let cases = [
        (
            Transmitter::Preparing,
            TransmitterEvent::Prepared(Outcome::Failed),
            LogEntry::RadioFailed { operation: RadioOperation::PrepareTx },
        ),
        (
            Transmitter::Preparing,
            TransmitterEvent::Prepared(Outcome::TimedOut),
            LogEntry::RadioTimedOut { operation: RadioOperation::PrepareTx, after_ms: 100 },
        ),
        (
            Transmitter::Active,
            TransmitterEvent::Transmitted(Outcome::Failed),
            LogEntry::RadioFailed { operation: RadioOperation::Tx },
        ),
        (
            Transmitter::Active,
            TransmitterEvent::Transmitted(Outcome::TimedOut),
            LogEntry::RadioTimedOut { operation: RadioOperation::Tx, after_ms: 30_000 },
        ),
    ];
    for (state, event, entry) in cases {
        let step = transmit(state, event);
        assert_eq!(step.next, Transmitter::Idle);
        assert_eq!(step.action, TransmitterAction::Wait { millis: 3_000 });
        assert_eq!(step.log, Some(entry));
    }
}

#[test]
fn transmitter_restarts_on_an_event_out_of_step() {
    let cases = [
        (Transmitter::Idle, TransmitterEvent::Prepared(Outcome::Done)),
        (Transmitter::Idle, TransmitterEvent::Transmitted(Outcome::Done)),
        (Transmitter::Preparing, TransmitterEvent::Transmitted(Outcome::Done)),
        (Transmitter::Preparing, TransmitterEvent::IntervalElapsed { snapshot: snapshot() }),
        (Transmitter::Active, TransmitterEvent::Prepared(Outcome::Done)),
        (Transmitter::Active, TransmitterEvent::IntervalElapsed { snapshot: snapshot() }),
    ];
    for (state, event) in cases {
        let step = transmit(state, event);
        assert_eq!(step.next, Transmitter::Idle);
        assert_eq!(step.action, TransmitterAction::Wait { millis: 3_000 });
        assert_eq!(step.log, Some(LogEntry::OutOfStep));
    }
}

#[test]
fn receiver_starts_by_arming() {
    assert_eq!(Receiver::start(), rearm(None, None));
}

#[test]
fn receiver_listens_once_armed() {
    assert_eq!(
        receive(Receiver::Preparing, ReceiverEvent::Armed(Outcome::Done)),
        ReceiverStep {
            next: Receiver::Active,
            action: ReceiverAction::Listen { timeout_ms: 60_000 },
            log: None,
            publish: None,
        }
    );
}

#[test]
fn receiver_arms_again_when_arming_fails() {
    assert_eq!(
        receive(Receiver::Preparing, ReceiverEvent::Armed(Outcome::Failed)),
        rearm(Some(LogEntry::RadioFailed { operation: RadioOperation::PrepareRx }), None)
    );
    assert_eq!(
        receive(Receiver::Preparing, ReceiverEvent::Armed(Outcome::TimedOut)),
        rearm(
            Some(LogEntry::RadioTimedOut { operation: RadioOperation::PrepareRx, after_ms: 10_000 }),
            None
        )
    );
}

#[test]
fn receiver_publishes_a_received_record() {
    let frame = RadioFrame::from_record(&snapshot()).unwrap();
    assert_eq!(receive(Receiver::Active, ReceiverEvent::Received(frame)), rearm(None, Some(snapshot())));
}

#[test]
fn receiver_drops_a_packet_that_holds_no_record() {
    assert_eq!(
        receive(Receiver::Active, ReceiverEvent::Received(frame_of(&[0, 0, 7]))),
        rearm(Some(LogEntry::DecodeFailed(DecodeError::BadOption)), None)
    );
    assert_eq!(
        receive(Receiver::Active, ReceiverEvent::Received(frame_of(&[1, 2, 3]))),
        rearm(Some(LogEntry::DecodeFailed(DecodeError::UnexpectedEnd)), None)
    );
    assert_eq!(
        receive(Receiver::Active, ReceiverEvent::Received(frame_of(&[0, 0, 0, 0, 1, 0xff, 0xff, 0xff, 0xff, 0xff]))),
        rearm(Some(LogEntry::DecodeFailed(DecodeError::BadVarint)), None)
    );
    assert_eq!(
        receive(Receiver::Active, ReceiverEvent::Received(frame_of(&[]))),
        rearm(Some(LogEntry::DecodeFailed(DecodeError::UnexpectedEnd)), None)
    );
}

#[test]
fn receiver_arms_again_when_listening_fails() {
    assert_eq!(
        receive(Receiver::Active, ReceiverEvent::ReceiveFailed),
        rearm(Some(LogEntry::RadioFailed { operation: RadioOperation::Rx }), None)
    );
    assert_eq!(
        receive(Receiver::Active, ReceiverEvent::ReceiveTimedOut),
        rearm(Some(LogEntry::RadioTimedOut { operation: RadioOperation::Rx, after_ms: 60_000 }), None)
    );
}

#[test]
fn receiver_restarts_on_an_event_out_of_step() {
    let frame = RadioFrame::from_record(&snapshot()).unwrap();
    let cases = [
        (Receiver::Preparing, ReceiverEvent::Received(frame)),
        (Receiver::Preparing, ReceiverEvent::ReceiveFailed),
        (Receiver::Preparing, ReceiverEvent::ReceiveTimedOut),
        (Receiver::Active, ReceiverEvent::Armed(Outcome::Done)),
        (Receiver::Active, ReceiverEvent::Armed(Outcome::TimedOut)),
    ];
    for (state, event) in cases {
        assert_eq!(receive(state, event), rearm(Some(LogEntry::OutOfStep), None));
    }
}

/// A radio on which arming always completes and no packet ever arrives.
fn deaf_radio(action: ReceiverAction) -> ReceiverEvent {
    match action {
        ReceiverAction::Arm { .. } => ReceiverEvent::Armed(Outcome::Done),
        ReceiverAction::Listen { .. } => ReceiverEvent::ReceiveTimedOut,
    }
}

#[test]
fn receiver_outlasts_a_radio_that_always_times_out() {
    let mut step = Receiver::start();
    let mut log = Vec::new();
    let mut listened = 0u32;
    let mut armed = 0u32;
    for _ in 0..20_000 {
        match step.action {
            ReceiverAction::Arm { timeout_ms } => {
                assert_eq!(timeout_ms, 10_000);
                armed += 1;
            }
            ReceiverAction::Listen { timeout_ms } => {
                assert_eq!(timeout_ms, 60_000);
                listened += 1;
            }
        }
        step = receive(step.next, deaf_radio(step.action));
        log.extend(step.log);
        assert_eq!(step.publish, None);
    }
    assert_eq!(armed, 10_000);
    assert_eq!(listened, 10_000);
    // One line per timeout, and nothing else.
    assert_eq!(log.len(), 10_000);
    assert!(log
        .iter()
        .all(|e| *e == LogEntry::RadioTimedOut { operation: RadioOperation::Rx, after_ms: 60_000 }));
    // And the receiver is about to arm the radio once more.
    assert_eq!(step, rearm(log.last().copied(), None));
}

#[test]
fn receiver_outlasts_a_radio_that_fails_in_every_way() {
    let mut step = Receiver::start();
    let mut failures = 0usize;
    let mut log = Vec::new();
    for round in 0u32..6_000 {
        let event = match (step.action, round % 3) {
            (ReceiverAction::Arm { .. }, 0) => ReceiverEvent::Armed(Outcome::Done),
            (ReceiverAction::Arm { .. }, 1) => ReceiverEvent::Armed(Outcome::Failed),
            (ReceiverAction::Arm { .. }, _) => ReceiverEvent::Armed(Outcome::TimedOut),
            (ReceiverAction::Listen { .. }, 0) => ReceiverEvent::ReceiveFailed,
            (ReceiverAction::Listen { .. }, 1) => ReceiverEvent::ReceiveTimedOut,
            (ReceiverAction::Listen { .. }, _) => ReceiverEvent::Received(frame_of(&[9])),
        };
        if event != ReceiverEvent::Armed(Outcome::Done) {
            failures += 1;
        }
        step = receive(step.next, event);
        log.extend(step.log);
    }
    assert_eq!(log.len(), failures);
    assert!(failures > 0);
}

#[test]
fn a_record_crosses_the_link() {
    // Transmitter side.
    let sent = transmit(Transmitter::Idle, TransmitterEvent::IntervalElapsed { snapshot: snapshot() });
    let on_air: Vec<u8> = match sent.action {
        TransmitterAction::Prepare { frame, .. } => frame.payload().to_vec(),
        other => panic!("expected a packet to load, got {:?}", other),
    };
    // Receiver side: the radio hands over its whole buffer and a length.
    let mut rx_buff = [0u8; 255];
    rx_buff[..on_air.len()].copy_from_slice(&on_air);
    let listening = receive(Receiver::Preparing, ReceiverEvent::Armed(Outcome::Done));
    let got = receive(listening.next, ReceiverEvent::Received(RadioFrame::new(rx_buff, on_air.len() as u8)));
    assert_eq!(got.publish, Some(snapshot()));
    assert_eq!(got.log, None);
    // A receiver that takes the whole buffer for the packet reads the same record.
    let padded = receive(Receiver::Active, ReceiverEvent::Received(RadioFrame::new(rx_buff, 255)));
    assert_eq!(padded.publish, Some(snapshot()));
}
