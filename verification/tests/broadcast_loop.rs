use dump1090_rs::broadcast::{Broadcaster, WriteOutcome};
use dump1090_rs::acquisition::{next_action, process_burst, process_bursts, LoopAction, ReadEvent};
use dump1090_rs::parse::{DecodeError, DecodedMessage};

#[test]
fn failed_client_is_pruned_others_keep_delivery() {
    let mut broadcaster = Broadcaster::new();
    broadcaster.register(1);
    broadcaster.register(2);
    broadcaster.register(3);
    // one pass: every live client is attempted, in registration order
    let snapshot = broadcaster.delivery_order();
    assert_eq!(snapshot, vec![1, 2, 3]);
    // client 2's write fails with a connection reset
    let outcomes = vec![
        WriteOutcome::Delivered,
        WriteOutcome::ConnectionReset,
        WriteOutcome::Delivered,
    ];
    broadcaster.apply_outcomes(&outcomes);
    // only client 2 was removed; 1 and 3 stay, in order
    assert_eq!(broadcaster.delivery_order(), vec![1, 3]);
    assert_eq!(broadcaster.client_count(), 2);
}

#[test]
fn broadcaster_starts_empty_and_keeps_order() {
    let mut broadcaster = Broadcaster::new();
    assert_eq!(broadcaster.client_count(), 0);
    assert_eq!(broadcaster.delivery_order(), Vec::<u64>::new());
    broadcaster.register(9);
    broadcaster.register(4);
    assert_eq!(broadcaster.delivery_order(), vec![9, 4]);
}

#[test]
fn all_resets_empty_the_set() {
    let mut broadcaster = Broadcaster::new();
    broadcaster.register(1);
    broadcaster.register(2);
    broadcaster.apply_outcomes(&vec![
        WriteOutcome::ConnectionReset,
        WriteOutcome::ConnectionReset,
    ]);
    assert_eq!(broadcaster.client_count(), 0);
}

#[test]
fn only_a_timeout_is_fatal() {
    assert_eq!(
        next_action(&ReadEvent::Samples { len: 4096 }),
        LoopAction::Demodulate { len: 4096 }
    );
    assert_eq!(
        next_action(&ReadEvent::ReadFailed { timeout: true }),
        LoopAction::FatalExit { status: 1 }
    );
    assert_eq!(next_action(&ReadEvent::ReadFailed { timeout: false }), LoopAction::Retry);
}

#[test]
fn burst_record_is_star_hex_semicolon() {
    let report = process_burst(&vec![0x01]);
    assert_eq!(report.record, b"*01;".to_vec());
    assert_eq!(report.decoded, Err(DecodeError::InvalidLength));

    let report = process_burst(&vec![0xab, 0xcd]);
    assert_eq!(report.record, b"*abcd;".to_vec());
}

#[test]
fn full_burst_decodes() {
    // 14 bytes whose bits[32..37) are 00101: type code 5, surface position
    let mut burst = vec![0u8; 14];
    burst[4] = 0b0010_1000;
    let report = process_burst(&burst);
    assert_eq!(report.record, b"*0000000028000000000000000000;".to_vec());
    match report.decoded {
        Ok(DecodedMessage::SurfacePosition { type_code, lat_scaled, lon_scaled }) => {
            assert_eq!(type_code, 5);
            assert_eq!(lat_scaled as f64 / 131072.0, -90.0);
            assert_eq!(lon_scaled as f64 / 131072.0, -180.0);
        }
        other => panic!("expected a surface position, got {other:?}"),
    }
}

#[test]
fn bursts_are_processed_in_arrival_order() {
    let bursts = vec![vec![0x0f], vec![0xf0, 0x10]];
    let reports = process_bursts(&bursts);
    assert_eq!(reports.len(), 2);
    assert_eq!(reports[0].record, b"*0f;".to_vec());
    assert_eq!(reports[1].record, b"*f010;".to_vec());
    // the record body agrees with the hex crate itself
    assert_eq!(reports[1].record[1..5].to_vec(), hex::encode(&bursts[1]).into_bytes());
}
