use pktreplay::channel::{create, SendStatus};
use pktreplay::config::Rate;
use pktreplay::delay::Delay;
use pktreplay::input::Packet;
use pktreplay::output::{NullSink, PacketWriter, WriteError};
use pktreplay::pipe::{read_packets_to, replay, write_packets, DrainOutcome, ReaderProgress};
use pktreplay::stats::Stats;

/// Sink that accepts every frame and records it.
struct RecordingSink {
    frames: Vec<Vec<u8>>,
}

impl PacketWriter for RecordingSink {
    fn write_raw(&mut self, buf: &[u8]) -> Result<usize, WriteError> {
        self.frames.push(buf.to_vec());
        Ok(buf.len())
    }
}

/// Sink that deliberately drops frames above the given size by reporting
/// zero bytes written.
struct MtuSink {
    mtu: usize,
}

impl PacketWriter for MtuSink {
    fn write_raw(&mut self, buf: &[u8]) -> Result<usize, WriteError> {
        if buf.len() > self.mtu {
            Ok(0)
        } else {
            Ok(buf.len())
        }
    }
}

/// Sink that fails on the packet with the given index.
struct FailingSink {
    seen: usize,
    fail_at: usize,
}

impl PacketWriter for FailingSink {
    fn write_raw(&mut self, buf: &[u8]) -> Result<usize, WriteError> {
        let i = self.seen;
        self.seen += 1;
        if i == self.fail_at {
            Err(WriteError {
                message: String::from("sink failure"),
            })
        } else {
            Ok(buf.len())
        }
    }
}

fn frames(n: usize, size: usize) -> Vec<Packet> {
    (0..n)
        .map(|i| Packet {
            data: vec![(i % 251) as u8; size],
            when: (i as u64) * 100,
        })
        .collect()
}

#[test]
fn fullspeed_file_to_sink_counts_all_bytes() {
    let pass = frames(100, 1500);
    let mut sink = RecordingSink { frames: Vec::new() };
    let run = replay(
        pass,
        false,
        None,
        100,
        50,
        Delay::for_rate(&Rate::Full),
        Stats::default(),
        &mut sink,
        None,
        0,
    );
    assert!(run.completed());
    assert_eq!(run.stats.packets, 100);
    assert_eq!(run.stats.invalid, 0);
    assert_eq!(run.stats.bytes, 150_000);
    assert_eq!(run.wrote, 100);
    let line = run.stats.summary(run.elapsed);
    assert!(line.starts_with("100 packets, 150000 bytes in"));
}

#[test]
fn fullspeed_replay_reproduces_the_input_bytewise() {
    let pass = frames(25, 60);
    let expected: Vec<Vec<u8>> = pass.iter().map(|p| p.data.clone()).collect();
    let mut sink = RecordingSink { frames: Vec::new() };
    let run = replay(
        pass,
        false,
        None,
        4,
        2,
        Delay::for_rate(&Rate::Full),
        Stats::default(),
        &mut sink,
        None,
        0,
    );
    assert!(run.completed());
    assert_eq!(sink.frames, expected);
}

#[test]
fn pps_pacing_takes_the_scheduled_time() {
    // 1001 packets at 1000 packets per second: the first goes out at the
    // start, the last at the 1_000_000 us schedule slot, exactly one
    // second on the virtual clock.
    let pass = frames(1001, 100);
    let mut sink = RecordingSink { frames: Vec::new() };
    let run = replay(
        pass,
        false,
        None,
        100,
        50,
        Delay::for_rate(&Rate::Pps(1000)),
        Stats::default(),
        &mut sink,
        None,
        0,
    );
    assert!(run.completed());
    assert_eq!(run.stats.packets, 1001);
    assert_eq!(run.elapsed, 1_000_000);
}

#[test]
fn bps_pacing_takes_the_scheduled_time() {
    // 8 Mbit/s over 1000-byte packets: every packet but the first pays
    // 1000 us for the bits already sent.
    let pass = frames(3, 1000);
    let mut sink = RecordingSink { frames: Vec::new() };
    let run = replay(
        pass,
        false,
        None,
        100,
        50,
        Delay::for_rate(&Rate::Mbps(8_000_000)),
        Stats::default(),
        &mut sink,
        None,
        0,
    );
    assert!(run.completed());
    assert_eq!(run.elapsed, 2_000);
}

#[test]
fn delayed_pacing_spans_the_capture_gaps() {
    let mut pass = frames(4, 50);
    pass[0].when = 1_000;
    pass[1].when = 3_000;
    pass[2].when = 3_000;
    pass[3].when = 6_500;
    let mut sink = RecordingSink { frames: Vec::new() };
    let run = replay(
        pass,
        false,
        None,
        100,
        50,
        Delay::for_rate(&Rate::Delayed),
        Stats::default(),
        &mut sink,
        None,
        0,
    );
    assert!(run.completed());
    // Total elapsed equals the span of the capture timestamps: the first
    // packet never waits, equal timestamps wait zero.
    assert_eq!(run.elapsed, 5_500);
}

#[test]
fn watermark_backpressure_bounds_the_depth() {
    let pass = frames(10_000, 40);
    let mut sink = RecordingSink { frames: Vec::new() };
    let run = replay(
        pass,
        false,
        None,
        4,
        2,
        Delay::for_rate(&Rate::Full),
        Stats::default(),
        &mut sink,
        None,
        0,
    );
    assert!(run.completed());
    assert_eq!(run.stats.packets, 10_000);
    assert!(run.max_depth <= 4);
    assert!(run.pauses >= 1);
}

#[test]
fn cancellation_stops_without_draining() {
    let pass = frames(5_000, 40);
    let mut sink = RecordingSink { frames: Vec::new() };
    let run = replay(
        pass,
        false,
        None,
        100,
        50,
        Delay::for_rate(&Rate::Full),
        Stats::default(),
        &mut sink,
        Some(250),
        0,
    );
    assert!(run.stopped);
    assert!(!run.completed());
    assert_eq!(run.wrote, 250);
    assert_eq!(run.stats.packets, 250);
}

#[test]
fn loop_with_count_replays_the_file_cyclically() {
    // A 7-packet file looped with a limit of 20: two full passes and six
    // packets of the third.
    let pass = frames(7, 30);
    let expected: Vec<Vec<u8>> = (0..20).map(|i| pass[i % 7].data.clone()).collect();
    let mut sink = RecordingSink { frames: Vec::new() };
    let run = replay(
        pass,
        true,
        Some(20),
        100,
        50,
        Delay::for_rate(&Rate::Full),
        Stats::default(),
        &mut sink,
        None,
        0,
    );
    assert!(run.completed());
    assert_eq!(run.wrote, 20);
    assert_eq!(sink.frames, expected);
    assert_eq!(sink.frames[18], sink.frames[4]);
    assert_eq!(sink.frames[19], sink.frames[5]);
}

#[test]
fn loop_with_count_crossing_one_and_a_half_passes() {
    let pass = frames(10, 30);
    let mut sink = RecordingSink { frames: Vec::new() };
    let run = replay(
        pass,
        true,
        Some(15),
        100,
        50,
        Delay::for_rate(&Rate::Full),
        Stats::default(),
        &mut sink,
        None,
        0,
    );
    assert!(run.completed());
    assert_eq!(run.wrote, 15);
    for i in 0..15 {
        assert_eq!(sink.frames[i], sink.frames[i % 10]);
    }
}

#[test]
fn count_truncates_a_single_pass() {
    let pass = frames(10, 30);
    let mut sink = RecordingSink { frames: Vec::new() };
    let run = replay(
        pass,
        false,
        Some(4),
        100,
        50,
        Delay::for_rate(&Rate::Full),
        Stats::default(),
        &mut sink,
        None,
        0,
    );
    assert!(run.completed());
    assert_eq!(run.wrote, 4);
}

#[test]
fn oversize_frames_count_as_invalid() {
    let mut pass = frames(7, 100);
    pass.extend(frames(3, 1501));
    let mut sink = MtuSink { mtu: 1500 };
    let run = replay(
        pass,
        false,
        None,
        100,
        50,
        Delay::for_rate(&Rate::Full),
        Stats::default(),
        &mut sink,
        None,
        0,
    );
    assert!(run.completed());
    assert_eq!(run.stats.packets, 7);
    assert_eq!(run.stats.invalid, 3);
    let line = run.stats.summary(run.elapsed);
    assert!(line.contains("7 packets (3 not sent)"));
}

#[test]
fn sink_error_aborts_the_writer_loop() {
    let pass = frames(10, 100);
    let mut sink = FailingSink {
        seen: 0,
        fail_at: 2,
    };
    let run = replay(
        pass,
        false,
        None,
        100,
        50,
        Delay::for_rate(&Rate::Full),
        Stats::default(),
        &mut sink,
        None,
        0,
    );
    assert!(!run.completed());
    assert!(!run.stopped);
    assert_eq!(run.write_error.unwrap().message, "sink failure");
    assert_eq!(run.wrote, 2);
    assert_eq!(run.stats.packets, 2);
}

#[test]
fn empty_input_completes_with_nothing_written() {
    let mut sink = RecordingSink { frames: Vec::new() };
    let run = replay(
        Vec::new(),
        false,
        None,
        100,
        50,
        Delay::for_rate(&Rate::Full),
        Stats::default(),
        &mut sink,
        None,
        0,
    );
    assert!(run.completed());
    assert_eq!(run.wrote, 0);
    assert_eq!(run.pauses, 0);
}

#[test]
fn periodic_reports_are_collected_during_the_run() {
    // Capture-timing packets 1 second apart, a report every second.
    let mut pass = frames(4, 100);
    for (i, p) in pass.iter_mut().enumerate() {
        p.when = (i as u64) * 1_000_000;
    }
    let mut sink = RecordingSink { frames: Vec::new() };
    let run = replay(
        pass,
        false,
        None,
        100,
        50,
        Delay::for_rate(&Rate::Delayed),
        Stats::periodic(1_000_000),
        &mut sink,
        None,
        0,
    );
    assert!(run.completed());
    assert_eq!(run.reports.len(), 3);
    assert!(run.reports[0].starts_with("2 packets,"));
}

#[test]
fn read_packets_to_fills_until_the_pause() {
    let (tx, _rx, mut st) = create(3, 1);
    let burst = read_packets_to(frames(5, 20), &tx, &mut st).unwrap();
    assert_eq!(burst.sent, 3);
    assert_eq!(burst.rest.len(), 2);
    assert_eq!(burst.rest[0].data, vec![3u8; 20]);
    assert!(st.is_paused());
    assert_eq!(st.depth(), 3);
}

#[test]
fn read_packets_to_finishes_a_small_input() {
    let (tx, _rx, mut st) = create(10, 5);
    let burst = read_packets_to(frames(4, 20), &tx, &mut st).unwrap();
    assert_eq!(burst.sent, 4);
    assert!(burst.rest.is_empty());
    assert!(!st.is_paused());
    assert!(matches!(
        tx.write_packet(&mut st, frames(1, 20).pop().unwrap()).unwrap(),
        SendStatus::Sent
    ));
}

#[test]
fn reader_progress_tracks_limit_and_looping() {
    let mut p = ReaderProgress::new(true, Some(20));
    assert!(!p.open_failure_is_graceful());
    p.record_open();
    assert!(p.open_failure_is_graceful());
    assert_eq!(p.pass_budget(), Some(20));
    p.record_sent(7);
    assert_eq!(p.pass_budget(), Some(13));
    assert!(p.should_continue(false));
    assert!(!p.should_continue(true));
    p.record_sent(13);
    assert!(!p.should_continue(false));

    let q = ReaderProgress::new(false, None);
    assert_eq!(q.pass_budget(), None);
    assert!(!q.should_continue(false));
    assert!(!q.open_failure_is_graceful());
}

#[test]
fn write_packets_drains_to_end_of_stream() {
    let (tx, rx, mut st) = create(10, 5);
    for p in frames(3, 50) {
        tx.write_packet(&mut st, p).unwrap();
    }
    tx.close(&mut st);
    let iter = rx.into_iter();
    let mut sink = RecordingSink { frames: Vec::new() };
    let mut delay = Delay::for_rate(&Rate::Full);
    let mut stats = Stats::default();
    let mut now: u64 = 0;
    let mut wrote: usize = 0;
    let mut werr = None;
    let mut reports: Vec<String> = Vec::new();
    let out = write_packets(
        &iter, &mut st, &mut sink, &mut delay, &mut stats, &mut now, &mut wrote, &mut werr,
        &mut reports, None,
    );
    assert!(matches!(out, DrainOutcome::Finished));
    assert_eq!(wrote, 3);
    assert_eq!(sink.frames.len(), 3);
    assert!(werr.is_none());
}

#[test]
fn write_packets_reports_an_open_producer() {
    let (tx, rx, mut st) = create(10, 5);
    for p in frames(2, 50) {
        tx.write_packet(&mut st, p).unwrap();
    }
    let iter = rx.into_iter();
    let mut sink = RecordingSink { frames: Vec::new() };
    let mut delay = Delay::for_rate(&Rate::Full);
    let mut stats = Stats::default();
    let mut now: u64 = 0;
    let mut wrote: usize = 0;
    let mut werr = None;
    let mut reports: Vec<String> = Vec::new();
    let out = write_packets(
        &iter, &mut st, &mut sink, &mut delay, &mut stats, &mut now, &mut wrote, &mut werr,
        &mut reports, None,
    );
    // The queue ran dry but the producer half is still open: the caller
    // must wait for more packets.
    assert!(matches!(out, DrainOutcome::WouldBlock));
    assert_eq!(wrote, 2);
}

#[test]
fn write_packets_stops_at_the_flag() {
    let (tx, rx, mut st) = create(10, 5);
    for p in frames(6, 50) {
        tx.write_packet(&mut st, p).unwrap();
    }
    tx.close(&mut st);
    let iter = rx.into_iter();
    let mut sink = RecordingSink { frames: Vec::new() };
    let mut delay = Delay::for_rate(&Rate::Full);
    let mut stats = Stats::default();
    let mut now: u64 = 0;
    let mut wrote: usize = 0;
    let mut werr = None;
    let mut reports: Vec<String> = Vec::new();
    let out = write_packets(
        &iter, &mut st, &mut sink, &mut delay, &mut stats, &mut now, &mut wrote, &mut werr,
        &mut reports, Some(4),
    );
    // End-of-stream is reported without draining the remaining packets.
    assert!(matches!(out, DrainOutcome::Stopped));
    assert_eq!(wrote, 4);
    assert_eq!(st.depth(), 2);
}

#[test]
fn null_sink_accepts_and_counts_every_byte() {
    let pass = frames(12, 250);
    let mut sink = NullSink::new();
    let run = replay(
        pass,
        false,
        None,
        100,
        50,
        Delay::for_rate(&Rate::Full),
        Stats::default(),
        &mut sink,
        None,
        0,
    );
    assert!(run.completed());
    assert_eq!(run.wrote, 12);
    assert_eq!(sink.accepted, 3_000);
    assert_eq!(run.stats.bytes, 3_000);
}
