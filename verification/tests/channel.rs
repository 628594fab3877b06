use pktreplay::channel::{create, ChannelError, RecvStatus, SendStatus};
use pktreplay::input::Packet;

fn pkt(byte: u8, when: u64) -> Packet {
    Packet { data: vec![byte; 4], when }
}

#[test]
fn send_then_receive_round_trips_in_order() {
    let (tx, rx, mut st) = create(10, 5);
    for i in 0..3u8 {
        match tx.write_packet(&mut st, pkt(i, i as u64)).unwrap() {
            SendStatus::Sent => {}
            SendStatus::Blocked(_) => panic!("no pause expected below the high watermark"),
        }
    }
    assert_eq!(st.depth(), 3);
    let iter = rx.into_iter();
    for i in 0..3u8 {
        match iter.next(&mut st, false) {
            RecvStatus::Delivered { pkt, resumed } => {
                assert_eq!(pkt.data, vec![i; 4]);
                assert_eq!(pkt.when, i as u64);
                assert!(!resumed);
            }
            _ => panic!("a queued packet was expected"),
        }
    }
    assert_eq!(st.depth(), 0);
    assert!(matches!(iter.next(&mut st, false), RecvStatus::Empty));
}

#[test]
fn high_watermark_pauses_the_producer() {
    let (tx, _rx, mut st) = create(2, 1);
    assert!(matches!(
        tx.write_packet(&mut st, pkt(1, 0)).unwrap(),
        SendStatus::Sent
    ));
    assert!(matches!(
        tx.write_packet(&mut st, pkt(2, 0)).unwrap(),
        SendStatus::Sent
    ));
    assert!(!st.is_paused());
    match tx.write_packet(&mut st, pkt(3, 0)).unwrap() {
        SendStatus::Blocked(back) => assert_eq!(back.data, vec![3; 4]),
        SendStatus::Sent => panic!("the third packet must pause at the high watermark"),
    }
    assert!(st.is_paused());
    assert_eq!(st.depth(), 2);
}

#[test]
fn dequeue_below_low_watermark_resumes() {
    let (tx, rx, mut st) = create(2, 1);
    tx.write_packet(&mut st, pkt(1, 0)).unwrap();
    tx.write_packet(&mut st, pkt(2, 0)).unwrap();
    assert!(matches!(
        tx.write_packet(&mut st, pkt(3, 0)).unwrap(),
        SendStatus::Blocked(_)
    ));
    let iter = rx.into_iter();
    match iter.next(&mut st, false) {
        RecvStatus::Delivered { resumed, .. } => assert!(!resumed),
        _ => panic!("a queued packet was expected"),
    }
    assert!(st.is_paused());
    match iter.next(&mut st, false) {
        RecvStatus::Delivered { resumed, .. } => assert!(resumed),
        _ => panic!("a queued packet was expected"),
    }
    assert!(!st.is_paused());
    assert!(matches!(
        tx.write_packet(&mut st, pkt(3, 0)).unwrap(),
        SendStatus::Sent
    ));
}

#[test]
fn strictly_alternating_pause_resume_preserves_order() {
    // The smallest watermark pair whose pauses always clear: a pause needs
    // the depth to fall below the low watermark, so the low watermark must
    // be at least one.
    let (tx, rx, mut st) = create(2, 1);
    let iter = rx.into_iter();
    let mut sent: u8 = 0;
    let mut got: Vec<u8> = Vec::new();
    let mut pauses = 0;
    let mut resumes = 0;
    while sent < 10 || st.depth() > 0 {
        if sent < 10 {
            match tx.write_packet(&mut st, pkt(sent, 0)).unwrap() {
                SendStatus::Sent => {
                    sent += 1;
                    continue;
                }
                SendStatus::Blocked(_) => pauses += 1,
            }
        }
        while st.is_paused() || (sent == 10 && st.depth() > 0) {
            match iter.next(&mut st, false) {
                RecvStatus::Delivered { pkt, resumed } => {
                    got.push(pkt.data[0]);
                    if resumed {
                        resumes += 1;
                    }
                }
                _ => break,
            }
        }
    }
    assert_eq!(got, (0..10u8).collect::<Vec<u8>>());
    assert_eq!(pauses, resumes);
    assert!(pauses >= 1);
}

#[test]
fn stop_yields_end_of_stream_without_draining() {
    let (tx, rx, mut st) = create(4, 2);
    tx.write_packet(&mut st, pkt(1, 0)).unwrap();
    tx.write_packet(&mut st, pkt(2, 0)).unwrap();
    let iter = rx.into_iter();
    assert!(matches!(iter.next(&mut st, true), RecvStatus::Stopped));
    assert_eq!(st.depth(), 2);
}

#[test]
fn sender_close_then_drain_ends_stream() {
    let (tx, rx, mut st) = create(4, 2);
    tx.write_packet(&mut st, pkt(7, 0)).unwrap();
    tx.close(&mut st);
    let iter = rx.into_iter();
    assert!(matches!(
        iter.next(&mut st, false),
        RecvStatus::Delivered { .. }
    ));
    assert!(matches!(iter.next(&mut st, false), RecvStatus::Closed));
}

#[test]
fn receiver_close_discards_and_fails_later_sends() {
    let (tx, rx, mut st) = create(2, 1);
    tx.write_packet(&mut st, pkt(1, 0)).unwrap();
    tx.write_packet(&mut st, pkt(2, 0)).unwrap();
    assert!(matches!(
        tx.write_packet(&mut st, pkt(3, 0)).unwrap(),
        SendStatus::Blocked(_)
    ));
    rx.close(&mut st);
    assert_eq!(st.depth(), 0);
    assert!(!st.is_paused());
    match tx.write_packet(&mut st, pkt(3, 0)) {
        Err(ChannelError::Send(back)) => assert_eq!(back.data, vec![3; 4]),
        _ => panic!("a send into a closed channel must fail"),
    }
}

#[test]
fn packet_duplicate_keeps_bytes_and_timestamp() {
    let p = Packet {
        data: vec![1, 2, 3],
        when: 99,
    };
    let q = p.duplicate();
    assert_eq!(q.data, vec![1, 2, 3]);
    assert_eq!(q.when, 99);
}
