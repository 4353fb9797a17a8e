use ipdis::broadcaster::{
    init_notification_channel, look_for_notification, probe_datagrams, Backoff, BroadcastError,
    MAX_EMPTY_SCANS, NOTIFICATION_CAPACITY, SLOWDOWN_FACTOR,
};
use ipdis::channel::Notification;
use ipdis::datagram::{ipv4, Endpoint};
use ipdis::signature::Signature;

#[test]
fn test_send() {
    let signature: Signature = Signature::from("test-signature");
    let signatures = vec![signature.clone()];
    let listener_port: u16 = 40_000;
    let probes = probe_datagrams(ipv4(255, 255, 255, 255), listener_port, &signatures);
    assert_eq!(probes.len(), 1);
    let lenght: usize = probes[0].payload.len();
    assert_eq!(lenght, 14);
    assert_eq!(lenght, signature.0.len());
    assert_eq!(probes[0].payload, signature.0);
    assert_eq!(probes[0].peer, Endpoint { addr: 0xffff_ffff, port: listener_port });
}

#[test]
fn fan_out_in_order() {
    let signatures = vec![Signature::from("a"), Signature::from("b")];
    let probes = probe_datagrams(ipv4(192, 168, 1, 255), 1901, &signatures);
    assert_eq!(probes.len(), 2);
    assert_eq!(probes[0].payload, b"a".to_vec());
    assert_eq!(probes[1].payload, b"b".to_vec());
    let broadcast = Endpoint { addr: ipv4(192, 168, 1, 255), port: 1901 };
    assert_eq!(probes[0].peer, broadcast);
    assert_eq!(probes[1].peer, broadcast);
}

#[test]
fn no_signature_no_datagram() {
    assert_eq!(probe_datagrams(0xffff_ffff, 1901, &[]).len(), 0);
}

#[test]
fn probe_holds_every_byte_of_a_long_signature() {
    let long = Signature::from_bytes(&[b'z'; 128]);
    let probes = probe_datagrams(0xffff_ffff, 1901, &[long.clone()]);
    assert_eq!(probes[0].payload.len(), 128);
    assert_eq!(probes[0].payload, long.0);
}

#[test]
fn constants() {
    assert_eq!(MAX_EMPTY_SCANS, 10);
    assert_eq!(SLOWDOWN_FACTOR, 10);
    assert_eq!(NOTIFICATION_CAPACITY, 1);
}

#[test]
fn fresh_backoff_waits_the_configured_period() {
    let backoff = Backoff::new();
    assert_eq!(backoff.empty_scans(), 0);
    assert!(!backoff.is_slowed());
    assert_eq!(backoff.period(1_000_000_000), 1_000_000_000);
    assert_eq!(backoff.period(0), 0);
}

#[test]
fn back_off_after_eleven_empty_rounds() {
    let scan_period: u64 = 10_000_000;
    let mut backoff = Backoff::new();
    for round in 1u32..=10 {
        assert_eq!(backoff.period(scan_period), 10_000_000);
        assert_eq!(backoff.record(Notification::Empty), Ok(false));
        assert_eq!(backoff.empty_scans(), round);
        assert!(!backoff.is_slowed());
    }
    assert_eq!(backoff.period(scan_period), 10_000_000);
    assert_eq!(backoff.record(Notification::Empty), Ok(true));
    assert_eq!(backoff.empty_scans(), 11);
    assert!(backoff.is_slowed());
    assert_eq!(backoff.period(scan_period), 100_000_000);
    assert_eq!(backoff.record(Notification::Received), Ok(false));
    assert_eq!(backoff.empty_scans(), 0);
    assert_eq!(backoff.period(scan_period), 10_000_000);
}

#[test]
fn count_stops_one_past_the_limit() {
    let mut backoff = Backoff::new();
    let mut slowdowns: u32 = 0;
    for _ in 0..50 {
        if backoff.record(Notification::Empty) == Ok(true) {
            slowdowns += 1;
        }
    }
    assert_eq!(backoff.empty_scans(), 11);
    assert_eq!(slowdowns, 1);
    assert_eq!(backoff.period(3), 30);
}

#[test]
fn notification_resets_at_any_count() {
    for silent in 0u32..15 {
        let mut backoff = Backoff::new();
        for _ in 0..silent {
            backoff.record(Notification::Empty).unwrap();
        }
        assert_eq!(backoff.record(Notification::Received), Ok(false));
        assert_eq!(backoff.empty_scans(), 0);
        assert_eq!(backoff.period(7), 7);
    }
}

#[test]
fn slowdown_is_told_once_per_silence() {
    let mut backoff = Backoff::new();
    let mut told: Vec<bool> = Vec::new();
    for _ in 0..12 {
        told.push(backoff.record(Notification::Empty).unwrap());
    }
    backoff.record(Notification::Received).unwrap();
    for _ in 0..12 {
        told.push(backoff.record(Notification::Empty).unwrap());
    }
    let at: Vec<usize> = (0..told.len()).filter(|i| told[*i]).collect();
    assert_eq!(at, vec![10, 22]);
}

#[test]
fn disconnected_notification_is_an_error() {
    let mut backoff = Backoff::new();
    backoff.record(Notification::Empty).unwrap();
    assert_eq!(
        backoff.record(Notification::Disconnected),
        Err(BroadcastError::NotificationDisconnected)
    );
    assert_eq!(backoff.empty_scans(), 1);
}

#[test]
fn largest_period_that_can_slow_down() {
    let mut backoff = Backoff::new();
    for _ in 0..11 {
        backoff.record(Notification::Empty).unwrap();
    }
    let largest: u64 = u64::MAX / 10;
    assert_eq!(backoff.period(largest), largest * 10);
}

#[test]
fn notification_channel_has_one_slot() {
    let (sender, receiver) = init_notification_channel();
    assert_eq!(sender.capacity(), Some(1));
    assert!(receiver.is_empty());
    assert_eq!(sender.try_send(()), Ok(()));
    assert!(sender.try_send(()).is_err());
    assert_eq!(receiver.len(), 1);
}

#[test]
fn look_finds_nothing_then_something() {
    let (sender, receiver) = init_notification_channel();
    let mut backoff = Backoff::new();
    assert_eq!(look_for_notification(&mut backoff, &receiver), Ok(false));
    assert_eq!(backoff.empty_scans(), 1);
    sender.send(()).unwrap();
    assert_eq!(look_for_notification(&mut backoff, &receiver), Ok(false));
    assert_eq!(backoff.empty_scans(), 0);
    assert!(receiver.is_empty());
}

#[test]
fn look_slows_down_on_the_eleventh_empty_round() {
    let (_sender, receiver) = init_notification_channel();
    let mut backoff = Backoff::new();
    for _ in 0..10 {
        assert_eq!(look_for_notification(&mut backoff, &receiver), Ok(false));
    }
    assert_eq!(look_for_notification(&mut backoff, &receiver), Ok(true));
    assert_eq!(look_for_notification(&mut backoff, &receiver), Ok(false));
    assert!(backoff.is_slowed());
}

#[test]
fn look_takes_a_waiting_notification_before_it_sees_the_disconnect() {
    let (sender, receiver) = init_notification_channel();
    sender.send(()).unwrap();
    drop(sender);
    let mut backoff = Backoff::new();
    assert_eq!(look_for_notification(&mut backoff, &receiver), Ok(false));
    assert_eq!(
        look_for_notification(&mut backoff, &receiver),
        Err(BroadcastError::NotificationDisconnected)
    );
}
