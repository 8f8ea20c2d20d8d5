use stack_ripper::state::{State, Update};
use stack_ripper::store::TelemetryStore;

fn position(lt: f32, ln: f32, t: i32) -> Update {
    Update { ln: Some(ln.to_bits()), lt: Some(lt.to_bits()), ga: None, aaa: None, t: Some(t) }
}

fn altitude(meters: f32) -> Update {
    Update { ln: None, lt: None, ga: None, aaa: Some(meters.to_bits()), t: None }
}

#[test]
fn new_store_knows_nothing() {
    let store = TelemetryStore::new();
    assert_eq!(store.read(), State { ln: None, lt: None, ga: None, aaa: None, t: None });
    assert_eq!(store.read(), State::new());
}

#[test]
fn read_copies_the_whole_record() {
    let mut store = TelemetryStore::new();
    store.update(position(52.5, 13.4, 101500));
    let before = store.read();
    store.update(altitude(36.5));
    // The copy is not touched by later writes.
    assert_eq!(before.aaa, None);
    assert_eq!(store.read().aaa, Some(36.5f32.to_bits()));
    assert_eq!(store.read().lt, before.lt);
}

#[test]
fn update_writes_only_the_fields_it_names() {
    let mut store = TelemetryStore::new();
    store.update(Update { ln: None, lt: None, ga: Some(120.0f32.to_bits()), aaa: None, t: None });
    store.update(position(52.5, 13.4, 101500));
    store.update(altitude(36.5));
    assert_eq!(
        store.read(),
        State {
            ln: Some(13.4f32.to_bits()),
            lt: Some(52.5f32.to_bits()),
            ga: Some(120.0f32.to_bits()),
            aaa: Some(36.5f32.to_bits()),
            t: Some(101500),
        }
    );
}

#[test]
fn empty_update_changes_nothing() {
    let mut store = TelemetryStore::new();
    store.update(position(1.0, 2.0, 3));
    let before = store.read();
    store.update(Update::none());
    assert_eq!(store.read(), before);
    assert!(Update::none().is_empty());
    assert!(!altitude(0.0).is_empty());
}

#[test]
fn apply_merges_field_by_field() {
    let start = State { ln: Some(1), lt: Some(2), ga: Some(3), aaa: Some(4), t: Some(5) };
    let u = Update { ln: Some(10), lt: None, ga: Some(30), aaa: None, t: Some(50) };
    assert_eq!(start.apply(u), State { ln: Some(10), lt: Some(2), ga: Some(30), aaa: Some(4), t: Some(50) });
    assert_eq!(start.apply(Update::none()), start);
}

#[test]
fn mutate_applies_the_closure_to_the_record() {
    let mut store = TelemetryStore::new();
    store.update(position(52.5, 13.4, 101500));
    store.mutate(|r| State { aaa: Some(7.0f32.to_bits()), t: r.t.map(|t| t + 1), ..r });
    let seen = store.read();
    assert_eq!(seen.aaa, Some(7.0f32.to_bits()));
    assert_eq!(seen.t, Some(101501));
    assert_eq!(seen.lt, Some(52.5f32.to_bits()));
}

#[test]
fn publish_replaces_the_record() {
    let mut store = TelemetryStore::new();
    store.update(position(52.5, 13.4, 101500));
    let received = State { ln: None, lt: None, ga: None, aaa: Some(5), t: None };
    store.publish(received);
    assert_eq!(store.read(), received);
}

#[test]
fn last_write_to_a_field_wins() {
    let mut store = TelemetryStore::new();
    store.update(altitude(1.0));
    store.update(position(10.0, 20.0, 1));
    store.update(altitude(2.0));
    store.update(position(11.0, 21.0, 2));
    store.update(Update::none());
    let seen = store.read();
    assert_eq!(seen.aaa, Some(2.0f32.to_bits()));
    assert_eq!(seen.lt, Some(11.0f32.to_bits()));
    assert_eq!(seen.ln, Some(21.0f32.to_bits()));
    assert_eq!(seen.t, Some(2));
    assert_eq!(seen.ga, None);
}

#[test]
fn every_interleaving_shows_whole_writes_only() {
    // Two producers, three writes each. Whatever order the scheduler picks,
    // every read in between sees, in each field, a value that one write gave
    // it whole, or nothing where nothing was written yet.
    let gps = [position(10.0, 20.0, 100), position(11.0, 21.0, 101), position(12.0, 22.0, 102)];
    let baro = [altitude(1.0), altitude(2.0), altitude(3.0)];
    // Each bit of `order` picks which producer writes next.
    for order in 0u32..64 {
        if order.count_ones() != 3 {
            continue;
        }
        let mut store = TelemetryStore::new();
        let (mut g, mut b) = (0usize, 0usize);
        for turn in 0..6 {
            if order & (1 << turn) != 0 {
                store.update(gps[g]);
                g += 1;
            } else {
                store.update(baro[b]);
                b += 1;
            }
            let seen = store.read();
            let fix = if g == 0 { None } else { Some(gps[g - 1]) };
            assert_eq!(seen.lt, fix.and_then(|u| u.lt));
            assert_eq!(seen.ln, fix.and_then(|u| u.ln));
            assert_eq!(seen.t, fix.and_then(|u| u.t));
            assert_eq!(seen.aaa, if b == 0 { None } else { baro[b - 1].aaa });
            assert_eq!(seen.ga, None);
        }
    }
}
