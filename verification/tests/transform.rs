use termcast::event::{Event, Payload};
use termcast::transform::{
    accelerate, effective_idle_time_limit, limit_idle_time, retime, IdleLimiter, Retimer, Speed,
};

fn output(time: u64, text: &str) -> Event {
    Event { time, payload: Payload::Output(text.as_bytes().to_vec()) }
}

fn summary(events: &[Event]) -> Vec<(u64, Vec<u8>)> {
    events
        .iter()
        .map(|e| match &e.payload {
            Payload::Output(data) => (e.time, data.clone()),
            _ => (e.time, Vec::new()),
        })
        .collect()
}

#[test]
fn idle_compression_caps_a_long_gap() {
    let events = vec![output(0, "a"), output(10_000_000, "b")];
    let out = limit_idle_time(events, 2_000_000);
    assert_eq!(summary(&out), vec![(0, b"a".to_vec()), (2_000_000, b"b".to_vec())]);
}

#[test]
fn idle_compression_keeps_short_gaps() {
    let events = vec![output(5, "a"), output(7, "b"), output(1_000_007, "c")];
    let out = limit_idle_time(events, 1_000_000);
    let times: Vec<u64> = out.iter().map(|e| e.time).collect();
    assert_eq!(times, vec![5, 7, 1_000_007]);
}

#[test]
fn idle_compression_caps_the_first_gap_too() {
    let out = limit_idle_time(vec![output(9_000_000, "a"), output(9_500_000, "b")], 1_000_000);
    let times: Vec<u64> = out.iter().map(|e| e.time).collect();
    assert_eq!(times, vec![1_000_000, 1_500_000]);
}

#[test]
fn idle_compression_accumulates_what_it_cut() {
    let events = vec![output(0, "a"), output(3_000_000, "b"), output(3_500_000, "c"), output(9_000_000, "d")];
    let out = limit_idle_time(events, 1_000_000);
    let times: Vec<u64> = out.iter().map(|e| e.time).collect();
    assert_eq!(times, vec![0, 1_000_000, 1_500_000, 2_500_000]);
}

#[test]
fn idle_compression_with_zero_limit_collapses_time() {
    let out = limit_idle_time(vec![output(1, "a"), output(50, "b")], 0);
    let times: Vec<u64> = out.iter().map(|e| e.time).collect();
    assert_eq!(times, vec![0, 0]);
}

#[test]
fn idle_compression_without_limit_is_identity() {
    let limit = effective_idle_time_limit(None, None);
    assert_eq!(limit, u64::MAX);
    let out = limit_idle_time(vec![output(3, "a"), output(u64::MAX, "b")], limit);
    let times: Vec<u64> = out.iter().map(|e| e.time).collect();
    assert_eq!(times, vec![3, u64::MAX]);
}

#[test]
fn idle_compression_treats_a_step_backwards_as_no_gap() {
    let out = limit_idle_time(vec![output(10, "a"), output(3, "b"), output(8, "c")], 100);
    let times: Vec<u64> = out.iter().map(|e| e.time).collect();
    assert_eq!(times, vec![10, 10, 15]);
}

#[test]
fn idle_compression_saturates_instead_of_wrapping() {
    let out = limit_idle_time(
        vec![output(u64::MAX, "a"), output(0, "b"), output(u64::MAX, "c")],
        u64::MAX,
    );
    let times: Vec<u64> = out.iter().map(|e| e.time).collect();
    assert_eq!(times, vec![u64::MAX, u64::MAX, u64::MAX]);
}

#[test]
fn idle_limiter_steps_like_the_batch() {
    let mut limiter = IdleLimiter::new(2_000_000);
    assert_eq!(limiter.apply(0), 0);
    assert_eq!(limiter.apply(10_000_000), 2_000_000);
    assert_eq!(limiter.apply(10_500_000), 2_500_000);
}

#[test]
fn idle_gaps_never_exceed_the_limit() {
    let limit = 700;
    let times = [0u64, 10, 5_000, 5_001, 90_000, 90_700, 90_701];
    let events: Vec<Event> = times.iter().map(|t| output(*t, "x")).collect();
    let out = limit_idle_time(events, limit);
    let mut prev = 0;
    for e in out.iter() {
        assert!(e.time >= prev);
        assert!(e.time - prev <= limit);
        prev = e.time;
    }
    assert_eq!(out.last().unwrap().time, 10 + 700 + 1 + 700 + 700 + 1);
}

#[test]
fn speed_scaling_divides_times() {
    let events = vec![output(0, "a"), output(1_000_000, "b"), output(3_000_000, "c")];
    let out = accelerate(events, Speed::new(2, 1).unwrap());
    assert_eq!(
        summary(&out),
        vec![(0, b"a".to_vec()), (500_000, b"b".to_vec()), (1_500_000, b"c".to_vec())]
    );
}

#[test]
fn speed_scaling_rounds_to_nearest() {
    let third = Speed::new(3, 1).unwrap();
    assert_eq!(third.scale(1), 0);
    assert_eq!(third.scale(2), 1);
    assert_eq!(third.scale(4), 1);
    assert_eq!(third.scale(5), 2);
    let double = Speed::new(2, 1).unwrap();
    assert_eq!(double.scale(1), 1);
    assert_eq!(double.scale(3), 2);
    let slow = Speed::new(2, 3).unwrap();
    assert_eq!(slow.scale(1), 2);
    assert_eq!(slow.scale(3), 5);
}

#[test]
fn speed_scaling_slows_down() {
    let half = Speed::new(1, 2).unwrap();
    assert_eq!(half.scale(1_500_000), 3_000_000);
}

#[test]
fn speed_scaling_saturates() {
    let slow = Speed::new(1, 2).unwrap();
    assert_eq!(slow.scale(u64::MAX), u64::MAX);
    let slowest = Speed::new(1, u64::MAX).unwrap();
    assert_eq!(slowest.scale(u64::MAX), u64::MAX);
    assert_eq!(slowest.scale(1), u64::MAX);
    let even = Speed::new(u64::MAX, u64::MAX).unwrap();
    assert_eq!(even.scale(u64::MAX), u64::MAX);
    assert_eq!(even.scale(12_345), 12_345);
}

#[test]
fn speed_must_be_positive() {
    assert!(Speed::new(0, 1).is_none());
    assert!(Speed::new(1, 0).is_none());
    assert!(Speed::new(0, 0).is_none());
    assert!(Speed::new(1, 1).is_some());
}

#[test]
fn speed_scaling_keeps_order_when_times_collapse() {
    let events = vec![output(10, "a"), output(11, "b"), output(12, "c"), output(13, "d")];
    let out = accelerate(events, Speed::new(1000, 1).unwrap());
    assert_eq!(
        summary(&out),
        vec![(0, b"a".to_vec()), (0, b"b".to_vec()), (0, b"c".to_vec()), (0, b"d".to_vec())]
    );
}

#[test]
fn speed_scaling_scales_gaps_within_a_microsecond() {
    let speed = Speed::new(7, 3).unwrap();
    let times = [0u64, 1, 2, 10, 1_000, 999_999, 123_456_789];
    let scaled: Vec<u64> = times.iter().map(|t| speed.scale(*t)).collect();
    for i in 0..times.len() {
        for j in i..times.len() {
            let exact = 3 * (times[j] - times[i]) as i128;
            let got = 7 * (scaled[j] - scaled[i]) as i128;
            assert!((got - exact).abs() < 7);
        }
    }
}

#[test]
fn playback_chain_compresses_then_scales() {
    let events = vec![output(0, "a"), output(10_000_000, "b"), output(11_000_000, "c")];
    let out = retime(events, 2_000_000, Speed::new(2, 1).unwrap());
    assert_eq!(
        summary(&out),
        vec![(0, b"a".to_vec()), (1_000_000, b"b".to_vec()), (1_500_000, b"c".to_vec())]
    );
}

#[test]
fn playback_chain_never_steps_backwards() {
    let times = [5u64, 1, 900, 899, 10_000_000, 3, 10_000_001];
    let events: Vec<Event> = times.iter().map(|t| output(*t, "x")).collect();
    let out = retime(events, 1_000, Speed::new(3, 2).unwrap());
    for pair in out.windows(2) {
        assert!(pair[0].time <= pair[1].time);
    }
}

#[test]
fn retimer_steps_like_the_batch() {
    let mut retimer = Retimer::new(2_000_000, Speed::new(2, 1).unwrap());
    let a = retimer.apply(output(0, "a"));
    let b = retimer.apply(Event { time: 10_000_000, payload: Payload::Marker });
    let c = retimer.apply(output(11_000_000, "c"));
    assert_eq!(a.time, 0);
    assert_eq!(b.time, 1_000_000);
    assert!(matches!(b.payload, Payload::Marker));
    assert_eq!(c.time, 1_500_000);
    assert!(matches!(c.payload, Payload::Output(ref d) if d == b"c"));
}

#[test]
fn transforms_keep_payloads_of_every_kind() {
    let events = vec![
        Event { time: 1, payload: Payload::Input(b"i".to_vec()) },
        Event { time: 2, payload: Payload::Resize(100, 40) },
        Event { time: 3, payload: Payload::Marker },
    ];
    let out = retime(events, 10, Speed::new(1, 1).unwrap());
    assert!(matches!(out[0].payload, Payload::Input(ref d) if d == b"i"));
    assert!(matches!(out[1].payload, Payload::Resize(100, 40)));
    assert!(matches!(out[2].payload, Payload::Marker));
}

#[test]
fn caller_limit_goes_before_the_recorded_one() {
    assert_eq!(effective_idle_time_limit(Some(1), Some(2)), 1);
    assert_eq!(effective_idle_time_limit(None, Some(2)), 2);
    assert_eq!(effective_idle_time_limit(Some(0), None), 0);
    assert_eq!(effective_idle_time_limit(None, None), u64::MAX);
}

#[test]
fn empty_stream_stays_empty() {
    assert!(limit_idle_time(Vec::new(), 5).is_empty());
    assert!(accelerate(Vec::new(), Speed::new(2, 1).unwrap()).is_empty());
}
