use std::collections::HashMap;
use termcast::format::raw::Writer;
use termcast::recorder::Header;
use termcast::tty::{TtySize, DEFAULT_COLS, DEFAULT_ROWS};

fn header(cols: u16, rows: u16) -> Header {
    Header {
        cols,
        rows,
        timestamp: None,
        idle_time_limit: None,
        command: None,
        title: None,
        env: HashMap::new(),
    }
}

#[test]
fn raw_start_sets_the_terminal_size() {
    let writer = Writer::new(Vec::<u8>::new());
    assert_eq!(writer.start(&header(80, 24), false), b"\x1b[8;24;80t".to_vec());
    assert_eq!(writer.start(&header(0, 7), false), b"\x1b[8;7;0t".to_vec());
    assert_eq!(writer.start(&header(65535, 100), false), b"\x1b[8;100;65535t".to_vec());
    assert_eq!(writer.start(&header(1000, 10), false), b"\x1b[8;10;1000t".to_vec());
}

#[test]
fn raw_start_is_silent_when_appending() {
    let writer = Writer::new(());
    assert!(writer.start(&header(80, 24), true).is_empty());
}

#[test]
fn raw_output_is_verbatim() {
    let writer = Writer::new(());
    assert_eq!(writer.output(5, b"\x1b[1mhi\r\n"), b"\x1b[1mhi\r\n".to_vec());
    assert!(writer.output(5, b"").is_empty());
}

#[test]
fn raw_ignores_everything_but_output() {
    let writer = Writer::new(());
    assert!(writer.input(1, b"typed").is_empty());
    assert!(writer.resize(2, (100, 50)).is_empty());
    assert!(writer.marker(3).is_empty());
}

#[test]
fn raw_writer_keeps_its_sink() {
    let mut writer = Writer::new(vec![1u8, 2]);
    let bytes = writer.output(0, b"ab");
    writer.writer.extend_from_slice(&bytes);
    assert_eq!(writer.writer, vec![1, 2, b'a', b'b']);
}

#[test]
fn tty_size_defaults_to_80_by_24() {
    assert_eq!(TtySize::default(), TtySize(80, 24));
    assert_eq!((DEFAULT_COLS, DEFAULT_ROWS), (80, 24));
}

#[test]
fn tty_size_converts_to_a_pair() {
    let pair: (u16, u16) = TtySize(132, 43).into();
    assert_eq!(pair, (132, 43));
    assert_eq!(<(u16, u16)>::from(TtySize(1, 2)), (1, 2));
}
