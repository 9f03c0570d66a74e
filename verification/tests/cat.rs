use termcast::cmd::cat::{concatenate, Cli, Concat, TimeOverflow};
use termcast::event::{Event, Payload};

fn out(time: u64, text: &str) -> Event {
    Event { time, payload: Payload::Output(text.as_bytes().to_vec()) }
}

fn replay(events: &[Event]) -> Vec<u8> {
    let mut bytes = Vec::new();
    for e in events {
        if let Payload::Output(data) = &e.payload {
            bytes.extend_from_slice(data);
        }
    }
    bytes
}

#[test]
fn concat_shifts_the_second_recording() {
    let first = vec![out(0, "a"), out(1_500_000, "b")];
    let second = vec![out(0, "x"), out(500_000, "y")];
    let all = concatenate(vec![first, second]).unwrap();
    let times: Vec<u64> = all.iter().map(|e| e.time).collect();
    assert_eq!(times, vec![0, 1_500_000, 1_500_000, 2_000_000]);
    assert_eq!(replay(&all[2..]), b"xy".to_vec());
}

#[test]
fn concat_offsets_accumulate() {
    let all = concatenate(vec![
        vec![out(10, "a")],
        vec![out(1, "b"), out(5, "c")],
        vec![out(2, "d")],
    ])
    .unwrap();
    let times: Vec<u64> = all.iter().map(|e| e.time).collect();
    assert_eq!(times, vec![10, 11, 15, 17]);
}

#[test]
fn concat_empty_recording_adds_no_offset() {
    let all = concatenate(vec![vec![out(7, "a")], Vec::new(), vec![out(1, "b")]]).unwrap();
    let times: Vec<u64> = all.iter().map(|e| e.time).collect();
    assert_eq!(times, vec![7, 8]);
    let lone = concatenate(vec![Vec::new(), vec![out(3, "z")]]).unwrap();
    assert_eq!(lone[0].time, 3);
}

#[test]
fn concat_of_nothing_is_empty() {
    assert!(concatenate(Vec::new()).unwrap().is_empty());
    assert!(concatenate(vec![Vec::new(), Vec::new()]).unwrap().is_empty());
}

#[test]
fn concat_offset_is_the_last_time_not_the_largest() {
    let all = concatenate(vec![vec![out(9, "a"), out(4, "b")], vec![out(1, "c")]]).unwrap();
    let times: Vec<u64> = all.iter().map(|e| e.time).collect();
    assert_eq!(times, vec![9, 4, 5]);
}

#[test]
fn concat_names_the_recording_that_overflows() {
    let result = concatenate(vec![
        vec![out(1, "a")],
        vec![out(u64::MAX - 1, "b")],
        vec![out(5, "c")],
    ]);
    assert_eq!(result.err(), Some(TimeOverflow { recording: 2 }));
    let edge = concatenate(vec![vec![out(1, "a")], vec![out(u64::MAX - 1, "b")]]).unwrap();
    assert_eq!(edge[1].time, u64::MAX);
    let first = concatenate(vec![vec![out(1, "a")], vec![out(u64::MAX, "b")]]);
    assert_eq!(first.err(), Some(TimeOverflow { recording: 1 }));
}

#[test]
fn concat_replays_like_each_recording_in_turn() {
    let recordings = vec![
        vec![out(0, "he"), Event { time: 1, payload: Payload::Input(b"no".to_vec()) }, out(2, "l")],
        vec![Event { time: 0, payload: Payload::Marker }, out(3, "lo ")],
        Vec::new(),
        vec![out(5, "world"), Event { time: 9, payload: Payload::Resize(1, 2) }],
    ];
    let mut in_turn = Vec::new();
    for r in &recordings {
        in_turn.extend(replay(r));
    }
    let all = concatenate(recordings).unwrap();
    assert_eq!(replay(&all), in_turn);
    assert_eq!(in_turn, b"hello world".to_vec());
    for pair in all.windows(2) {
        assert!(pair[0].time <= pair[1].time);
    }
}

#[test]
fn concat_streams_one_recording_at_a_time() {
    let concat = Concat::new();
    let mut part = concat.begin();
    assert!(part.header_due());
    assert_eq!(part.shift(out(0, "a")).unwrap().time, 0);
    assert_eq!(part.shift(out(1_500_000, "b")).unwrap().time, 1_500_000);
    let concat = part.end();
    let mut part = concat.begin();
    assert!(!part.header_due());
    let x = part.shift(out(0, "x")).unwrap();
    assert_eq!(x.time, 1_500_000);
    assert!(matches!(x.payload, Payload::Output(ref d) if d == b"x"));
    assert_eq!(part.shift(out(500_000, "y")).unwrap().time, 2_000_000);
    assert!(part.shift(out(u64::MAX, "z")).is_none());
    assert_eq!(part.shift(out(600_000, "w")).unwrap().time, 2_100_000);
    let mut part = part.end().begin();
    assert!(!part.header_due());
    assert_eq!(part.shift(out(1, "v")).unwrap().time, 2_100_001);
}

#[test]
fn concat_header_is_due_until_a_recording_has_ended() {
    let part = Concat::new().begin();
    assert!(part.header_due());
    let part = part.end().begin();
    assert!(!part.header_due());
}

#[test]
fn cli_needs_a_file_name() {
    assert!(Cli::new(Vec::new()).is_none());
    let cli = Cli::new(vec!["a.cast".to_string(), "b.cast".to_string()]).unwrap();
    assert_eq!(cli.filename(), &vec!["a.cast".to_string(), "b.cast".to_string()]);
}
