//! The decisions of recording: which events a session puts on record, at
//! what time, and which input is taken as a control key and kept from the
//! child. A recorder never touches a clock or a writer: it is told the
//! reading of the clock, and hands back what is to be written.

use crate::clock::{elapsed, Clock};
use crate::event::{event_view, Event, EventView, Payload, PayloadView};
use std::collections::HashMap;
use vstd::prelude::*;
use vstd::slice::slice_to_vec;

verus! {

/// A control key: the byte sequence that the terminal sends for it, or
/// none where the control has no key.
pub type Key = Option<Vec<u8>>;

/// What stands at the head of a recording.
#[derive(Debug)]
pub struct Header {
    pub cols: u16,
    pub rows: u16,
    /// When the session started, in seconds since the epoch.
    pub timestamp: Option<u64>,
    /// The idle time limit that playback is to apply, in microseconds.
    pub idle_time_limit: Option<u64>,
    pub command: Option<String>,
    pub title: Option<String>,
    pub env: HashMap<String, String>,
}

/// What the caller of a recorder wants to stand in the header.
#[derive(Debug)]
pub struct Metadata {
    /// The idle time limit that playback is to apply, in microseconds.
    pub idle_time_limit: Option<u64>,
    pub command: Option<String>,
    pub title: Option<String>,
    pub env: HashMap<String, String>,
}

/// The control keys of a recorder. With a prefix key set, the other keys
/// count only directly after it.
#[derive(Debug)]
pub struct KeyBindings {
    pub prefix: Key,
    pub pause: Key,
    pub add_marker: Key,
}

impl Default for KeyBindings {
    /// Ctrl-\ pauses and resumes; there is no prefix key and no marker key.
    fn default() -> (keys: Self)
        ensures
            keys.prefix is None,
            keys.pause matches Some(key) && key@ == seq![0x1cu8],
            keys.add_marker is None,
    {
        let pause: Vec<u8> = vec![0x1cu8];
        KeyBindings { prefix: None, pause: Some(pause), add_marker: None }
    }
}

/// Whether the input `data` is the key `key`, byte for byte and as a whole.
pub open spec fn is_key(key: Key, data: Seq<u8>) -> bool {
    key matches Some(k) && k@ == data
}

fn same_bytes(data: &[u8], key: &Vec<u8>) -> (same: bool)
    ensures
        same == (data@ == key@),
{
    if data.len() != key.len() {
        return false;
    }
    let mut i: usize = 0;
    while i < data.len()
        invariant
            i <= data.len(),
            data.len() == key.len(),
            forall|j: int| 0 <= j < i ==> data@[j] == key@[j],
        decreases data.len() - i,
    {
        if data[i] != key[i] {
            return false;
        }
        i += 1;
    }
    assert(data@ =~= key@);
    true
}

fn matches_key(key: &Key, data: &[u8]) -> (same: bool)
    ensures
        same == is_key(*key, data@),
{
    match key {
        Some(k) => same_bytes(data, k),
        None => false,
    }
}

fn copy_text(text: &Option<String>) -> (copy: Option<String>)
    ensures
        copy == *text,
{
    match text {
        Some(s) => Some(s.clone()),
        None => None,
    }
}

/// Mathematical model of a [`Recorder`].
pub struct RecorderView {
    /// The reading of the monotonic clock at which the session clock read
    /// zero.
    pub epoch: int,
    /// The time at which the session clock stands still, while paused.
    pub pause_time: Option<u64>,
    /// Whether the recording is added to an earlier one.
    pub append: bool,
    /// Whether input goes on record.
    pub record_input: bool,
    /// What is to stand in the header.
    pub metadata: Metadata,
    /// The control keys.
    pub keys: KeyBindings,
    /// Whether the prefix key was the last input.
    pub prefix_mode: bool,
}

/// What the session clock of `r` reads at the reading `now` of the
/// monotonic clock: the time of the pause while paused.
pub open spec fn session_time(r: RecorderView, now: u64) -> u64 {
    match r.pause_time {
        Some(time) => time,
        None => elapsed(r.epoch, now) as u64,
    }
}

/// The header of a session of `r` on a terminal of `size`, columns first,
/// that starts at `timestamp` seconds since the epoch.
pub open spec fn header_matches(header: Header, r: RecorderView, size: (u16, u16), timestamp: u64)
    -> bool {
    &&& header.cols == size.0
    &&& header.rows == size.1
    &&& header.timestamp == Some(timestamp)
    &&& header.idle_time_limit == r.metadata.idle_time_limit
    &&& header.command == r.metadata.command
    &&& header.title == r.metadata.title
    &&& header.env@ == r.metadata.env@
}

/// What output of the child puts on record: nothing while paused.
pub open spec fn output_event(r: RecorderView, data: Seq<u8>, now: u64) -> Option<EventView> {
    if r.pause_time is Some {
        None
    } else {
        Some(EventView { time: session_time(r, now), payload: PayloadView::Output(data) })
    }
}

/// What a change of the terminal's size puts on record, paused or not.
pub open spec fn resize_event(r: RecorderView, size: (u16, u16), now: u64) -> EventView {
    EventView { time: session_time(r, now), payload: PayloadView::Resize(size.0, size.1) }
}

/// Whether the control keys of `r` count for the next input: always where
/// there is no prefix key, else only directly after the prefix key.
pub open spec fn armed(r: RecorderView) -> bool {
    r.prefix_mode || r.keys.prefix is None
}

/// What one chunk of input from the user leads to.
pub struct InputView {
    /// The recorder after the input.
    pub recorder: RecorderView,
    /// Whether the input goes on to the child.
    pub forward: bool,
    /// What the input puts on record.
    pub event: Option<EventView>,
}

/// What the input `data` leads to at the reading `now` of the clock.
///
/// The prefix key, outside prefix mode, starts prefix mode and is kept from
/// the child. Any other input ends prefix mode. Where the control keys
/// count, the pause key stops the session clock, or starts it again where it
/// stood, and the marker key puts a marker on record; both are kept from the
/// child. All other input goes on to the child, and on record too if input
/// is recorded and the session is not paused.
pub open spec fn input_spec(r: RecorderView, data: Seq<u8>, now: u64) -> InputView {
    if !r.prefix_mode && is_key(r.keys.prefix, data) {
        InputView {
            recorder: RecorderView { prefix_mode: true, ..r },
            forward: false,
            event: None,
        }
    } else if armed(r) && is_key(r.keys.pause, data) {
        InputView {
            recorder: match r.pause_time {
                Some(time) => RecorderView {
                    epoch: now - time,
                    pause_time: None,
                    prefix_mode: false,
                    ..r
                },
                None => RecorderView {
                    pause_time: Some(session_time(r, now)),
                    prefix_mode: false,
                    ..r
                },
            },
            forward: false,
            event: None,
        }
    } else if armed(r) && is_key(r.keys.add_marker, data) {
        InputView {
            recorder: RecorderView { prefix_mode: false, ..r },
            forward: false,
            event: Some(EventView { time: session_time(r, now), payload: PayloadView::Marker }),
        }
    } else {
        InputView {
            recorder: RecorderView { prefix_mode: false, ..r },
            forward: true,
            event: if r.record_input && r.pause_time is None {
                Some(EventView { time: session_time(r, now), payload: PayloadView::Input(data) })
            } else {
                None
            },
        }
    }
}

/// The state of a recording session.
pub struct Recorder {
    clock: Clock,
    pause_time: Option<u64>,
    append: bool,
    record_input: bool,
    metadata: Metadata,
    keys: KeyBindings,
    prefix_mode: bool,
}

/// What one chunk of input from the user leads to.
#[derive(Debug)]
pub struct Input {
    /// Whether the input goes on to the child.
    pub forward: bool,
    /// What the input puts on record.
    pub event: Option<Event>,
}

impl View for Recorder {
    type V = RecorderView;

    closed spec fn view(&self) -> RecorderView {
        RecorderView {
            epoch: self.clock.epoch(),
            pause_time: self.pause_time,
            append: self.append,
            record_input: self.record_input,
            metadata: self.metadata,
            keys: self.keys,
            prefix_mode: self.prefix_mode,
        }
    }
}

impl Recorder {
    /// A recorder whose session clock reads zero at the reading `now` of
    /// the monotonic clock.
    pub fn new(
        append: bool,
        record_input: bool,
        metadata: Metadata,
        keys: KeyBindings,
        now: u64,
    ) -> (recorder: Recorder)
        ensures
            recorder@ == (RecorderView {
                epoch: now as int,
                pause_time: None,
                append,
                record_input,
                metadata,
                keys,
                prefix_mode: false,
            }),
    {
        Recorder {
            clock: Clock::reading(0, now),
            pause_time: None,
            append,
            record_input,
            metadata,
            keys,
            prefix_mode: false,
        }
    }

    /// Whether the recording is added to an earlier one, so that no header
    /// is written.
    pub fn append(&self) -> (append: bool)
        ensures
            append == self@.append,
    {
        self.append
    }

    /// Whether the session is paused.
    pub fn is_paused(&self) -> (paused: bool)
        ensures
            paused == self@.pause_time is Some,
    {
        self.pause_time.is_some()
    }

    /// What the session clock reads at the reading `now` of the monotonic
    /// clock.
    pub fn elapsed_time(&self, now: u64) -> (time: u64)
        ensures
            time == session_time(self@, now),
    {
        match self.pause_time {
            Some(time) => time,
            None => self.clock.elapsed(now),
        }
    }

    /// Starts the session on a terminal of `size`, columns first, at
    /// `timestamp` seconds since the epoch and at the reading `now` of the
    /// monotonic clock: the session clock reads zero from now on, and the
    /// header of the session is handed back.
    pub fn start(&mut self, size: (u16, u16), timestamp: u64, now: u64) -> (header: Header)
        ensures
            header_matches(header, old(self)@, size, timestamp),
            final(self)@ == (RecorderView { epoch: now as int, ..old(self)@ }),
    {
        let header = Header {
            cols: size.0,
            rows: size.1,
            timestamp: Some(timestamp),
            idle_time_limit: self.metadata.idle_time_limit,
            command: copy_text(&self.metadata.command),
            title: copy_text(&self.metadata.title),
            env: self.metadata.env.clone(),
        };
        self.clock = Clock::reading(0, now);
        header
    }

    /// Takes output of the child and hands back what goes on record.
    pub fn output(&self, data: &[u8], now: u64) -> (event: Option<Event>)
        ensures
            event_view(event) == output_event(self@, data@, now),
    {
        if self.pause_time.is_some() {
            return None;
        }
        Some(Event { time: self.elapsed_time(now), payload: Payload::Output(slice_to_vec(data)) })
    }

    /// Takes one chunk of input from the user and says whether it goes on to
    /// the child and what goes on record.
    pub fn input(&mut self, data: &[u8], now: u64) -> (input: Input)
        ensures
            final(self)@ == input_spec(old(self)@, data@, now).recorder,
            input.forward == input_spec(old(self)@, data@, now).forward,
            event_view(input.event) == input_spec(old(self)@, data@, now).event,
    {
        if !self.prefix_mode && matches_key(&self.keys.prefix, data) {
            self.prefix_mode = true;
            return Input { forward: false, event: None };
        }
        if self.prefix_mode || self.keys.prefix.is_none() {
            self.prefix_mode = false;
            if matches_key(&self.keys.pause, data) {
                match self.pause_time {
                    Some(time) => {
                        self.clock = Clock::reading(time, now);
                        self.pause_time = None;
                    },
                    None => {
                        self.pause_time = Some(self.elapsed_time(now));
                    },
                }
                return Input { forward: false, event: None };
            } else if matches_key(&self.keys.add_marker, data) {
                let event = Event { time: self.elapsed_time(now), payload: Payload::Marker };
                return Input { forward: false, event: Some(event) };
            }
        }
        let event: Option<Event> = if self.record_input && self.pause_time.is_none() {
            Some(
                Event {
                    time: self.elapsed_time(now),
                    payload: Payload::Input(slice_to_vec(data)),
                },
            )
        } else {
            None
        };
        Input { forward: true, event }
    }

    /// Takes a change of the terminal's size, columns first, and hands back
    /// what goes on record.
    pub fn resize(&self, size: (u16, u16), now: u64) -> (event: Event)
        ensures
            event@ == resize_event(self@, size, now),
    {
        Event { time: self.elapsed_time(now), payload: Payload::Resize(size.0, size.1) }
    }
}

/// While a session is paused, neither output nor input goes on record,
/// whereas a change of size does, and so does a marker, both at the time of
/// the pause.
pub proof fn lemma_paused_records(r: RecorderView, data: Seq<u8>, size: (u16, u16), now: u64)
    requires
        r.pause_time is Some,
    ensures
        output_event(r, data, now) is None,
        input_spec(r, data, now).event matches Some(e) ==> e.payload is Marker,
        resize_event(r, size, now) == (EventView {
            time: r.pause_time->0,
            payload: PayloadView::Resize(size.0, size.1),
        }),
        armed(r) && is_key(r.keys.add_marker, data) && !is_key(r.keys.pause, data) && !(
        !r.prefix_mode && is_key(r.keys.prefix, data)) ==> input_spec(r, data, now).event == Some(
            EventView { time: r.pause_time->0, payload: PayloadView::Marker },
        ),
{
}

/// Prefix mode lasts for exactly one input: it starts with the prefix key
/// and with nothing else, and whatever comes next ends it.
pub proof fn lemma_prefix_mode_resets(r: RecorderView, data: Seq<u8>, now: u64)
    ensures
        r.prefix_mode ==> !input_spec(r, data, now).recorder.prefix_mode,
        input_spec(r, data, now).recorder.prefix_mode <==> !r.prefix_mode && is_key(
            r.keys.prefix,
            data,
        ),
{
}

/// The control keys count only directly after the prefix key where there is
/// one: outside prefix mode, input that is not the prefix key goes on to the
/// child and changes nothing of the session.
pub proof fn lemma_unarmed_input_passes(r: RecorderView, data: Seq<u8>, now: u64)
    requires
        r.keys.prefix is Some,
        !r.prefix_mode,
        !is_key(r.keys.prefix, data),
    ensures
        input_spec(r, data, now).forward,
        input_spec(r, data, now).recorder == r,
{
}

/// The session clock never runs backwards while the monotonic clock does
/// not, whatever input comes in between.
pub proof fn lemma_session_time_monotonic(r: RecorderView, data: Seq<u8>, now: u64, later: u64)
    requires
        now <= later,
    ensures
        session_time(r, now) <= session_time(r, later),
        session_time(r, now) <= session_time(input_spec(r, data, now).recorder, later),
{
}

/// A pause takes no time on the session clock: when the session is resumed,
/// the clock reads what it read when it was stopped.
pub proof fn lemma_pause_takes_no_time(r: RecorderView, data: Seq<u8>, stop: u64, resume: u64)
    requires
        r.keys.prefix is None,
        is_key(r.keys.pause, data),
        r.pause_time is None,
    ensures
        ({
            let paused = input_spec(r, data, stop).recorder;
            let resumed = input_spec(paused, data, resume).recorder;
            &&& paused.pause_time == Some(session_time(r, stop))
            &&& resumed.pause_time is None
            &&& session_time(resumed, resume) == session_time(r, stop)
        }),
{
}

} // verus!
