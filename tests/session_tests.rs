use enoki_core::{
    pace, InboundMessage, MushroomEntry, MushroomPath, MushroomTable, MushroomValue, SubscriptionPackage,
    SyncSession, ValueKind, WireValue, CADENCE_MICROS, QUEUE_CAPACITY,
};
use network_tables::v4::subscription::SubscriptionOptions;

fn options(periodic_ms: i32) -> SubscriptionOptions {
    SubscriptionOptions { periodic: Some(periodic_ms), ..Default::default() }
}

fn double_message(topic: &str, v: f64, at: u64) -> InboundMessage {
    InboundMessage { topic_name: topic.to_string(), data: WireValue::F64(v.to_bits()), timestamp: at }
}

#[test]
fn last_message_of_a_cycle_wins() {
    let mut session = SyncSession::new(0);
    let steps = session.plan_subscriptions(vec![SubscriptionPackage::new("/x".to_string(), options(100))]);
    assert_eq!(steps.len(), 1);
    assert!(!steps[0].replaces_existing);
    assert_eq!(steps[0].package.name(), "/x");
    let polled = session.absorb_inbound(
        1000,
        vec![double_message("/x", 1.0, 10), double_message("/x", 2.0, 20)],
    );
    let entry = polled.get_entry(&MushroomPath::parse("/x")).unwrap();
    assert_eq!(entry.get_value(), MushroomValue::Double(2.0f64.to_bits()));
    assert_eq!(entry.get_timestamp(), Some(20));
    assert_eq!(polled.get_timestamp(), 1000);
    assert_eq!(polled.len(), 1);
}

#[test]
fn resubscribing_replaces_the_subscription() {
    let mut session = SyncSession::new(0);
    let first = session.plan_subscriptions(vec![SubscriptionPackage::new("/x".to_string(), options(100))]);
    assert!(!first[0].replaces_existing);
    let again = session.plan_subscriptions(vec![
        SubscriptionPackage::new("/x".to_string(), options(50)),
        SubscriptionPackage::new("/y".to_string(), options(50)),
        SubscriptionPackage::new("/y".to_string(), options(20)),
    ]);
    let flags: Vec<bool> = again.iter().map(|s| s.replaces_existing).collect();
    assert_eq!(flags, vec![true, false, true]);
    let (name, opts) = again.into_iter().nth(2).unwrap().package.into_parts();
    assert_eq!(name, "/y");
    assert_eq!(opts.unwrap().periodic, Some(20));
}

#[test]
fn topics_are_announced_once() {
    let mut session = SyncSession::new(0);
    let table = MushroomTable::new_from_entries(
        0,
        vec![MushroomEntry::new(MushroomValue::Int(5), MushroomPath::parse("/y"), None)],
    );
    let mut announces = 0;
    let mut sends = 0;
    for _ in 0..2 {
        for step in session.plan_publish(&table) {
            assert_eq!(step.topic, "/y");
            assert!(matches!(step.value, WireValue::Integer(5)));
            if let Some(kind) = step.announce {
                assert_eq!(kind, ValueKind::Int);
                announces += 1;
            }
            sends += 1;
        }
    }
    assert_eq!(announces, 1);
    assert_eq!(sends, 2);
}

#[test]
fn announce_uses_the_first_value_kind() {
    let mut session = SyncSession::new(0);
    let table = MushroomTable::new_from_entries(
        0,
        vec![
            MushroomEntry::new(MushroomValue::Boolean(true), MushroomPath::parse("/a"), None),
            MushroomEntry::new(MushroomValue::StringArray(vec!["s".to_string()]), MushroomPath::parse("/b"), None),
        ],
    );
    let steps = session.plan_publish(&table);
    assert_eq!(steps.len(), 2);
    assert_eq!(steps[0].announce, Some(ValueKind::Boolean));
    assert_eq!(steps[1].announce, Some(ValueKind::StringArray));
    assert_eq!(steps[1].topic, "/b");
}

#[test]
fn inbound_state_accumulates_across_cycles() {
    let mut session = SyncSession::new(0);
    session.absorb_inbound(10, vec![double_message("/a", 1.0, 1), double_message("/b", 2.0, 2)]);
    let second = session.absorb_inbound(20, vec![double_message("/b", 3.0, 3)]);
    assert_eq!(second.len(), 2);
    assert_eq!(
        second.get_entry(&MushroomPath::parse("/a")).unwrap().get_value(),
        MushroomValue::Double(1.0f64.to_bits())
    );
    assert_eq!(
        second.get_entry(&MushroomPath::parse("/b")).unwrap().get_value(),
        MushroomValue::Double(3.0f64.to_bits())
    );
    assert_eq!(second.get_timestamp(), 20);
    assert_eq!(session.snapshot().get_timestamp(), 20);
}

#[test]
fn unreadable_messages_are_skipped() {
    let mut session = SyncSession::new(0);
    let table = session.absorb_inbound(
        5,
        vec![
            InboundMessage { topic_name: "/n".to_string(), data: WireValue::Nil, timestamp: 1 },
            InboundMessage { topic_name: "/i".to_string(), data: WireValue::Integer(9), timestamp: 2 },
        ],
    );
    assert_eq!(table.len(), 1);
    assert!(!table.has_entry(&MushroomPath::parse("/n")));
    assert_eq!(table.get_entry(&MushroomPath::parse("/i")).unwrap().get_value(), MushroomValue::Int(9));
}

#[test]
fn pacing_sleeps_the_rest_of_the_cadence() {
    assert_eq!(CADENCE_MICROS, 15000);
    assert_eq!(pace(0), 15000);
    assert_eq!(pace(4000), 11000);
    assert_eq!(pace(15000), 0);
    assert_eq!(pace(40000), 0);
}

#[test]
fn full_publish_queue_rejects_the_next_request() {
    let (tx, _rx) = tokio::sync::mpsc::channel::<MushroomTable>(QUEUE_CAPACITY);
    for _ in 0..255 {
        assert!(tx.try_send(MushroomTable::new(0)).is_ok());
    }
    let err = tx.try_send(MushroomTable::new(0)).unwrap_err();
    assert!(matches!(err, tokio::sync::mpsc::error::TrySendError::Full(_)));
    assert_eq!(tx.max_capacity() - tx.capacity(), 255);
}

#[test]
fn failed_announce_is_announced_again() {
    let mut session = SyncSession::new(0);
    let table = MushroomTable::new_from_entries(
        0,
        vec![MushroomEntry::new(MushroomValue::Int(5), MushroomPath::parse("/y"), None)],
    );
    let first = session.plan_publish(&table);
    assert_eq!(first[0].announce, Some(ValueKind::Int));
    session.forget_announcement(&"/y".to_string());
    let again = session.plan_publish(&table);
    assert_eq!(again[0].announce, Some(ValueKind::Int));
    let third = session.plan_publish(&table);
    assert_eq!(third[0].announce, None);
    session.forget_announcement(&"/other".to_string());
    assert_eq!(session.plan_publish(&table)[0].announce, None);
}
