use std::collections::HashMap;
use termcast::event::{Event, Payload};
use termcast::recorder::{KeyBindings, Metadata, Recorder};

fn metadata() -> Metadata {
    Metadata { idle_time_limit: None, command: None, title: None, env: HashMap::new() }
}

fn recorder(record_input: bool, keys: KeyBindings) -> Recorder {
    Recorder::new(false, record_input, metadata(), keys, 0)
}

fn prefixed() -> KeyBindings {
    KeyBindings { prefix: Some(vec![0x01]), pause: Some(vec![b'p']), add_marker: Some(vec![b'm']) }
}

fn is_output(event: &Option<Event>, time: u64, text: &str) -> bool {
    matches!(event, Some(Event { time: t, payload: Payload::Output(d) }) if *t == time && d == text.as_bytes())
}

fn is_input(event: &Option<Event>, time: u64, text: &str) -> bool {
    matches!(event, Some(Event { time: t, payload: Payload::Input(d) }) if *t == time && d == text.as_bytes())
}

fn is_marker(event: &Option<Event>, time: u64) -> bool {
    matches!(event, Some(Event { time: t, payload: Payload::Marker }) if *t == time)
}

#[test]
fn recorder_default_keys() {
    let keys = KeyBindings::default();
    assert_eq!(keys.prefix, None);
    assert_eq!(keys.pause, Some(vec![0x1c]));
    assert_eq!(keys.add_marker, None);
}

#[test]
fn recorder_pause_cuts_time_out_of_the_session() {
    let mut r = recorder(false, KeyBindings::default());
    let _ = r.start((80, 24), 1_700_000_000, 0);
    assert!(is_output(&r.output(b"a", 100_000), 100_000, "a"));
    let pause = r.input(&[0x1c], 200_000);
    assert!(!pause.forward);
    assert!(pause.event.is_none());
    assert!(r.is_paused());
    assert!(r.output(b"b", 300_000).is_none());
    let resume = r.input(&[0x1c], 400_000);
    assert!(!resume.forward);
    assert!(resume.event.is_none());
    assert!(!r.is_paused());
    assert!(is_output(&r.output(b"c", 500_000), 300_000, "c"));
}

#[test]
fn recorder_clock_stands_still_while_paused() {
    let mut r = recorder(true, KeyBindings::default());
    assert_eq!(r.elapsed_time(50), 50);
    r.input(&[0x1c], 70);
    assert_eq!(r.elapsed_time(70), 70);
    assert_eq!(r.elapsed_time(1_000_000), 70);
    r.input(&[0x1c], 2_000_000);
    assert_eq!(r.elapsed_time(2_000_000), 70);
    assert_eq!(r.elapsed_time(2_000_030), 100);
}

#[test]
fn recorder_clock_starts_at_the_given_reading() {
    let r = Recorder::new(false, false, metadata(), KeyBindings::default(), 1_000);
    assert_eq!(r.elapsed_time(1_000), 0);
    assert_eq!(r.elapsed_time(1_250), 250);
    assert_eq!(r.elapsed_time(999), 0);
}

#[test]
fn recorder_start_resets_the_clock_and_builds_the_header() {
    let mut env = HashMap::new();
    env.insert("TERM".to_string(), "xterm".to_string());
    let meta = Metadata {
        idle_time_limit: Some(2_500_000),
        command: Some("sh".to_string()),
        title: Some("demo".to_string()),
        env: env.clone(),
    };
    let mut r = Recorder::new(true, false, meta, KeyBindings::default(), 10);
    assert!(r.append());
    let header = r.start((132, 43), 1_700_000_000, 5_000);
    assert_eq!(header.cols, 132);
    assert_eq!(header.rows, 43);
    assert_eq!(header.timestamp, Some(1_700_000_000));
    assert_eq!(header.idle_time_limit, Some(2_500_000));
    assert_eq!(header.command, Some("sh".to_string()));
    assert_eq!(header.title, Some("demo".to_string()));
    assert_eq!(header.env, env);
    assert_eq!(r.elapsed_time(5_000), 0);
    assert_eq!(r.elapsed_time(5_400), 400);
}

#[test]
fn recorder_input_is_forwarded_and_recorded_on_request() {
    let mut quiet = recorder(false, KeyBindings::default());
    let seen = quiet.input(b"ls\n", 10);
    assert!(seen.forward);
    assert!(seen.event.is_none());
    let mut loud = recorder(true, KeyBindings::default());
    let seen = loud.input(b"ls\n", 10);
    assert!(seen.forward);
    assert!(is_input(&seen.event, 10, "ls\n"));
}

#[test]
fn recorder_paused_session_records_no_input_and_no_output() {
    let mut r = recorder(true, KeyBindings { add_marker: Some(vec![b'm']), ..KeyBindings::default() });
    r.input(&[0x1c], 100);
    assert!(r.output(b"hidden", 150).is_none());
    let typed = r.input(b"x", 160);
    assert!(typed.forward);
    assert!(typed.event.is_none());
    let resized = r.resize((90, 30), 170);
    assert_eq!(resized.time, 100);
    assert!(matches!(resized.payload, Payload::Resize(90, 30)));
    let marked = r.input(b"m", 180);
    assert!(!marked.forward);
    assert!(is_marker(&marked.event, 100));
}

#[test]
fn recorder_resize_is_always_recorded() {
    let r = recorder(false, KeyBindings::default());
    let event = r.resize((100, 50), 42);
    assert_eq!(event.time, 42);
    assert!(matches!(event.payload, Payload::Resize(100, 50)));
}

#[test]
fn recorder_marker_key_adds_a_marker() {
    let mut r = recorder(true, KeyBindings { prefix: None, pause: None, add_marker: Some(vec![0x1b, b'm']) });
    let marked = r.input(&[0x1b, b'm'], 77);
    assert!(!marked.forward);
    assert!(is_marker(&marked.event, 77));
    let part = r.input(&[0x1b], 78);
    assert!(part.forward);
    assert!(is_input(&part.event, 78, "\x1b"));
    let more = r.input(&[0x1b, b'm', b'm'], 79);
    assert!(more.forward);
}

#[test]
fn recorder_prefix_arms_the_next_input_only() {
    let mut r = recorder(true, prefixed());
    let plain = r.input(b"p", 1);
    assert!(plain.forward);
    assert!(is_input(&plain.event, 1, "p"));
    assert!(!r.is_paused());
    let prefix = r.input(&[0x01], 2);
    assert!(!prefix.forward);
    assert!(prefix.event.is_none());
    let pause = r.input(b"p", 3);
    assert!(!pause.forward);
    assert!(r.is_paused());
    let again = r.input(b"p", 4);
    assert!(again.forward);
    assert!(again.event.is_none());
    assert!(r.is_paused());
    r.input(&[0x01], 5);
    r.input(b"p", 6);
    assert!(!r.is_paused());
}

#[test]
fn recorder_prefix_mode_ends_with_any_input() {
    let mut r = recorder(true, prefixed());
    r.input(&[0x01], 1);
    let other = r.input(b"x", 2);
    assert!(other.forward);
    assert!(is_input(&other.event, 2, "x"));
    let marker = r.input(b"m", 3);
    assert!(marker.forward);
    assert!(is_input(&marker.event, 3, "m"));
}

#[test]
fn recorder_prefix_twice_forwards_the_second() {
    let mut r = recorder(true, prefixed());
    assert!(!r.input(&[0x01], 1).forward);
    let second = r.input(&[0x01], 2);
    assert!(second.forward);
    assert!(is_input(&second.event, 2, "\x01"));
    let armed_again = r.input(&[0x01], 3);
    assert!(!armed_again.forward);
    let marked = r.input(b"m", 4);
    assert!(is_marker(&marked.event, 4));
}

#[test]
fn recorder_output_carries_the_bytes_as_they_came() {
    let r = recorder(false, KeyBindings::default());
    let bytes = [0u8, 255, 27, b'[', b'0', b'm'];
    let event = r.output(&bytes, 9);
    assert!(matches!(event, Some(Event { time: 9, payload: Payload::Output(ref d) }) if d == &bytes));
}
