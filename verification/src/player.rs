//! The decisions of playback. A player never touches a clock, a keyboard
//! or a terminal: it says what is to be done next, is told how that went,
//! and decides again.

use crate::clock::{elapsed, Clock};
use crate::cmd::cat::{concat_spec, lemma_concat_replays_in_turn, replayed_in_turn};
use crate::event::{event_view, replayed_bytes, Event, EventView, Payload, PayloadView};
use crate::transform::{lemma_playback_keeps_bytes, playback_spec};
use vstd::prelude::*;

verus! {

/// The keys that steer playback. A control without a key is never
/// triggered.
#[derive(Clone, Copy, Debug, PartialEq, Eq)]
pub struct KeyBindings {
    pub quit: Option<char>,
    pub pause: Option<char>,
    pub step: Option<char>,
    pub next_marker: Option<char>,
}

impl Default for KeyBindings {
    /// Ctrl-C quits, space pauses and resumes, `.` steps, `]` runs to the
    /// next marker.
    fn default() -> (keys: Self)
        ensures
            keys == (KeyBindings {
                quit: Some('\x03'),
                pause: Some(' '),
                step: Some('.'),
                next_marker: Some(']'),
            }),
    {
        KeyBindings { quit: Some('\x03'), pause: Some(' '), step: Some('.'), next_marker: Some(']') }
    }
}

/// What a key asks of the player.
#[derive(Clone, Copy, Debug, PartialEq, Eq, Structural)]
pub enum Command {
    Quit,
    Pause,
    Step,
    NextMarker,
    Other,
}

/// What `key` asks for under the bindings `keys`. Where one key is bound to
/// several controls, quitting goes before pausing, pausing before
/// stepping, and stepping before running to the next marker.
pub open spec fn command_of(keys: KeyBindings, key: char) -> Command {
    if keys.quit == Some(key) {
        Command::Quit
    } else if keys.pause == Some(key) {
        Command::Pause
    } else if keys.step == Some(key) {
        Command::Step
    } else if keys.next_marker == Some(key) {
        Command::NextMarker
    } else {
        Command::Other
    }
}

fn is_bound(binding: Option<char>, key: char) -> (bound: bool)
    ensures
        bound == (binding == Some(key)),
{
    match binding {
        Some(k) => k == key,
        None => false,
    }
}

impl KeyBindings {
    /// What `key` asks for under these bindings.
    pub fn command(&self, key: char) -> (command: Command)
        ensures
            command == command_of(*self, key),
    {
        if is_bound(self.quit, key) {
            Command::Quit
        } else if is_bound(self.pause, key) {
            Command::Pause
        } else if is_bound(self.step, key) {
            Command::Step
        } else if is_bound(self.next_marker, key) {
            Command::NextMarker
        } else {
            Command::Other
        }
    }
}

/// The key that a read from the keyboard stands for: the first byte of
/// `buf` where the read brought `total` bytes in and `total` is not zero,
/// and none otherwise.
pub fn first_key(buf: &[u8], total: usize) -> (key: Option<char>)
    ensures
        key == if total > 0 && buf@.len() > 0 {
            Some(buf@[0] as char)
        } else {
            None
        },
{
    if total > 0 && buf.len() > 0 {
        Some(buf[0] as char)
    } else {
        None
    }
}

/// How long a paused player waits for a key before it looks again, in
/// microseconds.
pub const PAUSED_POLL: u64 = 1_000_000;

/// The bytes that end the line when playback is quit.
pub open spec fn line_break() -> Seq<u8> {
    seq![13u8, 10u8]
}

/// Mathematical model of a [`Player`].
pub struct PlayerView {
    /// The keys that steer playback.
    pub keys: KeyBindings,
    /// Whether playback pauses at each marker.
    pub pause_on_markers: bool,
    /// The reading of the monotonic clock at which the playback clock read
    /// zero.
    pub epoch: int,
    /// The time at which the playback clock stands still, while paused.
    pub paused: Option<u64>,
    /// The event that was fetched and not replayed yet.
    pub next_event: Option<EventView>,
    /// Whether playback was quit by key.
    pub quit: bool,
    /// Every event fetched so far, in order.
    pub fetched: Seq<EventView>,
    /// Every byte handed out for the terminal so far, in order.
    pub written: Seq<u8>,
}

/// What a player goes on with once the terminal has taken a write or a
/// flush.
#[derive(Clone, Copy, Debug, PartialEq, Eq)]
pub enum DoneCont {
    /// Fetch the next event.
    Fetch,
    /// Flush, and fetch the next event after that.
    FlushFetch,
    /// Go on with the run to the next marker.
    Drain,
    /// End playback.
    Finish,
    /// Wait for a key, for so many microseconds.
    Wait(u64),
    /// Look at the event that is due next.
    Top,
}

/// What a player goes on with once an event is fetched.
pub enum EventContView {
    /// Look at the event that is due next.
    Top,
    /// Replay the held event on the run to the next marker.
    Drain(EventView),
}

/// Mathematical model of an [`Action`]: what is to be done next, and the
/// player that waits for it.
pub enum ActionView {
    /// Fetch the next event of the recording.
    Fetch(PlayerView, EventContView),
    /// Wait for a key, at most so many microseconds.
    Wait(u64, PlayerView),
    /// Write the bytes to the terminal.
    Write(Seq<u8>, PlayerView, DoneCont),
    /// Flush the terminal.
    Flush(PlayerView, DoneCont),
    /// Playback is over.
    Finish(PlayerView),
}

/// A player that has done nothing yet, at the reading `now` of the clock.
pub open spec fn initial(keys: KeyBindings, pause_on_markers: bool, now: u64) -> PlayerView {
    PlayerView {
        keys,
        pause_on_markers,
        epoch: now as int,
        paused: None,
        next_event: None,
        quit: false,
        fetched: Seq::empty(),
        written: Seq::empty(),
    }
}

/// `p` after it has handed `data` out for the terminal.
pub open spec fn wrote(p: PlayerView, data: Seq<u8>) -> PlayerView {
    PlayerView { written: p.written + data, ..p }
}

/// `p` with no event left to replay.
pub open spec fn consumed(p: PlayerView) -> PlayerView {
    PlayerView { next_event: None, ..p }
}

/// `p` with the playback clock stopped at `time`.
pub open spec fn paused_at(p: PlayerView, time: u64) -> PlayerView {
    PlayerView { paused: Some(time), ..p }
}

/// The player looks at the event that is due next. With none left playback
/// is over. While paused it waits for a key. Else it replays the event if
/// its time has come, and flushes the terminal to wait for the rest of the
/// time if not.
pub open spec fn top(p: PlayerView, now: u64) -> ActionView {
    match p.next_event {
        None => ActionView::Finish(p),
        Some(e) => if p.paused is Some {
            ActionView::Wait(PAUSED_POLL, p)
        } else if e.time > elapsed(p.epoch, now) {
            ActionView::Flush(p, DoneCont::Wait((e.time - elapsed(p.epoch, now)) as u64))
        } else {
            dispatch(p, e)
        },
    }
}

/// The running player replays `e`: output goes to the terminal, a marker
/// stops the playback clock at its time if the player pauses on markers,
/// and everything else is passed over. The next event is fetched after
/// that.
pub open spec fn dispatch(p: PlayerView, e: EventView) -> ActionView {
    match e.payload {
        PayloadView::Output(data) => ActionView::Write(
            data,
            wrote(consumed(p), data),
            DoneCont::Fetch,
        ),
        PayloadView::Marker => if p.pause_on_markers {
            ActionView::Fetch(paused_at(consumed(p), e.time), EventContView::Top)
        } else {
            ActionView::Fetch(consumed(p), EventContView::Top)
        },
        _ => ActionView::Fetch(consumed(p), EventContView::Top),
    }
}

/// The player goes on with the run to the next marker: it holds on to the
/// event that is due and fetches the one behind it, or flushes the terminal
/// where the recording is at its end.
pub open spec fn drain(p: PlayerView) -> ActionView {
    match p.next_event {
        Some(e) => ActionView::Fetch(consumed(p), EventContView::Drain(e)),
        None => ActionView::Flush(p, DoneCont::Top),
    }
}

/// The player replays `held` on the run to the next marker: output goes to
/// the terminal, a marker ends the run and stops the playback clock at its
/// time, and everything else is passed over.
pub open spec fn drained(p: PlayerView, held: EventView) -> ActionView {
    match held.payload {
        PayloadView::Output(data) => ActionView::Write(data, wrote(p, data), DoneCont::Drain),
        PayloadView::Marker => ActionView::Flush(paused_at(p, held.time), DoneCont::Top),
        _ => drain(p),
    }
}

/// The player quits: it ends the line on the terminal, and playback is over
/// after that.
pub open spec fn quit(p: PlayerView) -> ActionView {
    ActionView::Write(
        line_break(),
        PlayerView { quit: true, ..wrote(p, line_break()) },
        DoneCont::Finish,
    )
}

/// The paused player steps: the playback clock moves to the time of `e`,
/// which is replayed, and flushed if it is output; the next event is
/// fetched after that.
pub open spec fn step(p: PlayerView, e: EventView) -> ActionView {
    match e.payload {
        PayloadView::Output(data) => ActionView::Write(
            data,
            wrote(paused_at(consumed(p), e.time), data),
            DoneCont::FlushFetch,
        ),
        _ => ActionView::Fetch(paused_at(consumed(p), e.time), EventContView::Top),
    }
}

/// What the player does once the event `event` is fetched, or the recording
/// is found at its end, at the reading `now` of the clock.
pub open spec fn on_event(
    p: PlayerView,
    cont: EventContView,
    event: Option<EventView>,
    now: u64,
) -> ActionView {
    let q = match event {
        Some(e) => PlayerView { next_event: event, fetched: p.fetched.push(e), ..p },
        None => PlayerView { next_event: event, ..p },
    };
    match cont {
        EventContView::Top => top(q, now),
        EventContView::Drain(held) => drained(q, held),
    }
}

/// What the player does once the wait for a key is over, with the key
/// `key` or with none, at the reading `now` of the clock.
///
/// While paused: no key and any other key leave things as they are; the
/// pause key starts the playback clock again where it stood; the step key
/// replays one event; the marker key runs to the next marker. While
/// running: with no key the time of the event that is due has come and it
/// is replayed; the pause key stops the playback clock where it stands; any
/// other key leaves things as they are. The quit key quits in both.
pub open spec fn on_key(p: PlayerView, key: Option<char>, now: u64) -> ActionView {
    match p.next_event {
        None => top(p, now),
        Some(e) => match (p.paused, key) {
            (Some(_), None) => top(p, now),
            (Some(at), Some(k)) => match command_of(p.keys, k) {
                Command::Quit => quit(p),
                Command::Pause => top(PlayerView { epoch: now - at, paused: None, ..p }, now),
                Command::Step => step(p, e),
                Command::NextMarker => drain(p),
                Command::Other => top(p, now),
            },
            (None, None) => dispatch(p, e),
            (None, Some(k)) => match command_of(p.keys, k) {
                Command::Quit => quit(p),
                Command::Pause => top(paused_at(p, elapsed(p.epoch, now) as u64), now),
                _ => top(p, now),
            },
        },
    }
}

/// What the player does once the terminal has taken a write or a flush, at
/// the reading `now` of the clock.
pub open spec fn on_done(p: PlayerView, cont: DoneCont, now: u64) -> ActionView {
    match cont {
        DoneCont::Fetch => ActionView::Fetch(p, EventContView::Top),
        DoneCont::FlushFetch => ActionView::Flush(p, DoneCont::Fetch),
        DoneCont::Drain => drain(p),
        DoneCont::Finish => ActionView::Finish(p),
        DoneCont::Wait(timeout) => ActionView::Wait(timeout, p),
        DoneCont::Top => top(p, now),
    }
}

/// The state of a playback: its clock, what is due next, and what went by.
pub struct Player {
    keys: KeyBindings,
    pause_on_markers: bool,
    clock: Clock,
    paused: Option<u64>,
    next_event: Option<Event>,
    quit: bool,
    fetched: Ghost<Seq<EventView>>,
    written: Ghost<Seq<u8>>,
}

impl View for Player {
    type V = PlayerView;

    closed spec fn view(&self) -> PlayerView {
        PlayerView {
            keys: self.keys,
            pause_on_markers: self.pause_on_markers,
            epoch: self.clock.epoch(),
            paused: self.paused,
            next_event: event_view(self.next_event),
            quit: self.quit,
            fetched: self.fetched@,
            written: self.written@,
        }
    }
}

/// What a player goes on with once an event is fetched.
enum EventCont {
    Top,
    Drain(Event),
}

impl View for EventCont {
    type V = EventContView;

    closed spec fn view(&self) -> EventContView {
        match *self {
            EventCont::Top => EventContView::Top,
            EventCont::Drain(held) => EventContView::Drain(held@),
        }
    }
}

/// A player that waits for the next event of the recording.
pub struct AwaitEvent {
    player: Player,
    cont: EventCont,
}

/// A player that waits for a key.
pub struct AwaitKey {
    player: Player,
}

/// A player that waits for the terminal to take a write or a flush.
pub struct AwaitDone {
    player: Player,
    cont: DoneCont,
}

/// What is to be done next for a playback, together with the player that
/// waits for it.
pub enum Action {
    /// Fetch the next event of the recording and resume with it, or with
    /// none at the end of the recording.
    Fetch(AwaitEvent),
    /// Wait for a key, at most so many microseconds, and resume with the
    /// key, or with none when the time is up.
    Wait(u64, AwaitKey),
    /// Write the bytes to the terminal and resume.
    Write(Vec<u8>, AwaitDone),
    /// Flush the terminal and resume.
    Flush(AwaitDone),
    /// Playback is over.
    Finish(Player),
}

impl View for Action {
    type V = ActionView;

    open spec fn view(&self) -> ActionView {
        match *self {
            Action::Fetch(waiting) => ActionView::Fetch(waiting.player(), waiting.cont()),
            Action::Wait(timeout, waiting) => ActionView::Wait(timeout, waiting.player()),
            Action::Write(data, waiting) => ActionView::Write(
                data@,
                waiting.player(),
                waiting.cont(),
            ),
            Action::Flush(waiting) => ActionView::Flush(waiting.player(), waiting.cont()),
            Action::Finish(player) => ActionView::Finish(player@),
        }
    }
}

impl Player {
    /// A playback that starts at the reading `now` of the monotonic clock:
    /// it waits for the first event of the recording.
    pub fn start(keys: KeyBindings, pause_on_markers: bool, now: u64) -> (waiting: AwaitEvent)
        ensures
            waiting.player() == initial(keys, pause_on_markers, now),
            waiting.cont() == EventContView::Top,
    {
        let player = Player {
            keys,
            pause_on_markers,
            clock: Clock::reading(0, now),
            paused: None,
            next_event: None,
            quit: false,
            fetched: Ghost(Seq::empty()),
            written: Ghost(Seq::empty()),
        };
        AwaitEvent { player, cont: EventCont::Top }
    }

    /// Whether playback was quit by key.
    pub fn was_quit(&self) -> (quit: bool)
        ensures
            quit == self@.quit,
    {
        self.quit
    }

    /// The time at which the playback clock stands still, while paused.
    pub fn paused(&self) -> (paused: Option<u64>)
        ensures
            paused == self@.paused,
    {
        self.paused
    }

    fn top(self, now: u64) -> (action: Action)
        ensures
            action@ == top(self@, now),
    {
        let due: Option<u64> = match &self.next_event {
            Some(e) => Some(e.time),
            None => None,
        };
        match due {
            None => Action::Finish(self),
            Some(time) => {
                if self.paused.is_some() {
                    Action::Wait(PAUSED_POLL, AwaitKey { player: self })
                } else {
                    let elapsed: u64 = self.clock.elapsed(now);
                    if time > elapsed {
                        Action::Flush(
                            AwaitDone { player: self, cont: DoneCont::Wait(time - elapsed) },
                        )
                    } else {
                        self.dispatch()
                    }
                }
            },
        }
    }

    fn wrote(self, data: &Vec<u8>) -> (player: Player)
        ensures
            player@ == wrote(self@, data@),
    {
        let mut player = self;
        player.written = Ghost(player.written@ + data@);
        player
    }

    fn dispatch(self) -> (action: Action)
        ensures
            action@ == match self@.next_event {
                Some(e) => dispatch(self@, e),
                None => ActionView::Fetch(self@, EventContView::Top),
            },
    {
        let mut player = self;
        match player.next_event.take() {
            Some(Event { time, payload }) => match payload {
                Payload::Output(data) => {
                    let player = player.wrote(&data);
                    Action::Write(data, AwaitDone { player, cont: DoneCont::Fetch })
                },
                Payload::Marker => {
                    if player.pause_on_markers {
                        player.paused = Some(time);
                    }
                    Action::Fetch(AwaitEvent { player, cont: EventCont::Top })
                },
                _ => Action::Fetch(AwaitEvent { player, cont: EventCont::Top }),
            },
            None => Action::Fetch(AwaitEvent { player, cont: EventCont::Top }),
        }
    }

    fn drain(self) -> (action: Action)
        ensures
            action@ == drain(self@),
    {
        let mut player = self;
        match player.next_event.take() {
            Some(held) => Action::Fetch(AwaitEvent { player, cont: EventCont::Drain(held) }),
            None => Action::Flush(AwaitDone { player, cont: DoneCont::Top }),
        }
    }

    fn drained(self, held: Event) -> (action: Action)
        ensures
            action@ == drained(self@, held@),
    {
        let mut player = self;
        let Event { time, payload } = held;
        match payload {
            Payload::Output(data) => {
                let player = player.wrote(&data);
                Action::Write(data, AwaitDone { player, cont: DoneCont::Drain })
            },
            Payload::Marker => {
                player.paused = Some(time);
                Action::Flush(AwaitDone { player, cont: DoneCont::Top })
            },
            _ => player.drain(),
        }
    }

    fn quit(self) -> (action: Action)
        ensures
            action@ == quit(self@),
    {
        let data: Vec<u8> = vec![13u8, 10u8];
        let mut player = self.wrote(&data);
        player.quit = true;
        assert(data@ =~= line_break());
        Action::Write(data, AwaitDone { player, cont: DoneCont::Finish })
    }

    fn step(self) -> (action: Action)
        ensures
            action@ == match self@.next_event {
                Some(e) => step(self@, e),
                None => ActionView::Fetch(self@, EventContView::Top),
            },
    {
        let mut player = self;
        match player.next_event.take() {
            Some(Event { time, payload }) => {
                player.paused = Some(time);
                match payload {
                    Payload::Output(data) => {
                        let player = player.wrote(&data);
                        Action::Write(data, AwaitDone { player, cont: DoneCont::FlushFetch })
                    },
                    _ => Action::Fetch(AwaitEvent { player, cont: EventCont::Top }),
                }
            },
            None => Action::Fetch(AwaitEvent { player, cont: EventCont::Top }),
        }
    }
}

impl AwaitEvent {
    /// The player that waits.
    pub closed spec fn player(self) -> PlayerView {
        self.player@
    }

    /// What the player goes on with.
    pub closed spec fn cont(self) -> EventContView {
        self.cont@
    }

    /// Goes on with the event that was fetched, or with none where the
    /// recording is at its end, at the reading `now` of the clock.
    pub fn resume(self, event: Option<Event>, now: u64) -> (action: Action)
        ensures
            action@ == on_event(self.player(), self.cont(), event_view(event), now),
    {
        let AwaitEvent { player, cont } = self;
        let mut player = player;
        let ghost fetched = match event_view(event) {
            Some(e) => player.fetched@.push(e),
            None => player.fetched@,
        };
        player.fetched = Ghost(fetched);
        player.next_event = event;
        match cont {
            EventCont::Top => player.top(now),
            EventCont::Drain(held) => player.drained(held),
        }
    }
}

impl AwaitKey {
    /// The player that waits.
    pub closed spec fn player(self) -> PlayerView {
        self.player@
    }

    /// Goes on with the key that was pressed, or with none where the time
    /// was up, at the reading `now` of the clock.
    pub fn resume(self, key: Option<char>, now: u64) -> (action: Action)
        ensures
            action@ == on_key(self.player(), key, now),
    {
        let mut player = self.player;
        if player.next_event.is_none() {
            return player.top(now);
        }
        match (player.paused, key) {
            (Some(_), None) => player.top(now),
            (Some(at), Some(k)) => match player.keys.command(k) {
                Command::Quit => player.quit(),
                Command::Pause => {
                    player.clock = Clock::reading(at, now);
                    player.paused = None;
                    player.top(now)
                },
                Command::Step => player.step(),
                Command::NextMarker => player.drain(),
                Command::Other => player.top(now),
            },
            (None, None) => player.dispatch(),
            (None, Some(k)) => match player.keys.command(k) {
                Command::Quit => player.quit(),
                Command::Pause => {
                    let at: u64 = player.clock.elapsed(now);
                    player.paused = Some(at);
                    player.top(now)
                },
                _ => player.top(now),
            },
        }
    }
}

impl AwaitDone {
    /// The player that waits.
    pub closed spec fn player(self) -> PlayerView {
        self.player@
    }

    /// What the player goes on with.
    pub closed spec fn cont(self) -> DoneCont {
        self.cont
    }

    /// Goes on once the terminal has taken the write or the flush, at the
    /// reading `now` of the clock.
    pub fn resume(self, now: u64) -> (action: Action)
        ensures
            action@ == on_done(self.player(), self.cont(), now),
    {
        let player = self.player;
        match self.cont {
            DoneCont::Fetch => Action::Fetch(AwaitEvent { player, cont: EventCont::Top }),
            DoneCont::FlushFetch => Action::Flush(AwaitDone { player, cont: DoneCont::Fetch }),
            DoneCont::Drain => player.drain(),
            DoneCont::Finish => Action::Finish(player),
            DoneCont::Wait(timeout) => Action::Wait(timeout, AwaitKey { player }),
            DoneCont::Top => player.top(now),
        }
    }
}

/// What the terminal was handed is what the events that went by replay, in
/// their order, and the line break at the end where playback was quit. The
/// last `held` events fetched, and before them the event that is due where
/// there is one, have not gone by yet.
pub open spec fn in_step(p: PlayerView, held: nat) -> bool {
    let waiting = held + if p.next_event is Some {
        1nat
    } else {
        0nat
    };
    &&& waiting <= p.fetched.len()
    &&& p.next_event matches Some(e) ==> p.fetched[p.fetched.len() - held - 1] == e
    &&& p.written == replayed_bytes(p.fetched.take(p.fetched.len() - waiting)) + if p.quit {
        line_break()
    } else {
        Seq::empty()
    }
}

/// The state that a playback is in at every moment, whatever the recording,
/// the keys and the clock: what the terminal was handed keeps step with the
/// events fetched. It holds at the start, each resumption keeps it, and at
/// the end it says what the terminal has received: with no quit, the output
/// of every event of the recording, bytes and order untouched.
pub open spec fn consistent(action: ActionView) -> bool {
    match action {
        ActionView::Fetch(p, EventContView::Top) => !p.quit && p.next_event is None && in_step(
            p,
            0,
        ),
        ActionView::Fetch(p, EventContView::Drain(held)) => {
            &&& !p.quit
            &&& p.next_event is None
            &&& in_step(p, 1)
            &&& p.fetched.last() == held
        },
        ActionView::Wait(_, p) => !p.quit && in_step(p, 0),
        ActionView::Write(_, p, cont) => match cont {
            DoneCont::Finish => p.quit && in_step(p, 0),
            DoneCont::Fetch | DoneCont::FlushFetch => !p.quit && p.next_event is None && in_step(
                p,
                0,
            ),
            _ => !p.quit && in_step(p, 0),
        },
        ActionView::Flush(p, cont) => match cont {
            DoneCont::Fetch | DoneCont::FlushFetch | DoneCont::Finish => {
                &&& !p.quit
                &&& p.next_event is None
                &&& in_step(p, 0)
            },
            _ => !p.quit && in_step(p, 0),
        },
        ActionView::Finish(p) => in_step(p, 0) && (p.quit || p.next_event is None),
    }
}

/// The bytes that a stream replays are those of all but its last event,
/// followed by those of the last.
proof fn lemma_replayed_last(events: Seq<EventView>, n: int)
    requires
        0 < n <= events.len(),
    ensures
        replayed_bytes(events.take(n)) == replayed_bytes(events.take(n - 1)) + events[n
            - 1].payload.replayed(),
{
    assert(events.take(n).drop_last() =~= events.take(n - 1));
}

/// A playback starts in a consistent state.
pub proof fn lemma_start_consistent(keys: KeyBindings, pause_on_markers: bool, now: u64)
    ensures
        consistent(ActionView::Fetch(initial(keys, pause_on_markers, now), EventContView::Top)),
{
    let p = initial(keys, pause_on_markers, now);
    assert(p.fetched.take(0) =~= Seq::<EventView>::empty());
    assert(p.written =~= replayed_bytes(p.fetched.take(0)) + Seq::<u8>::empty());
}

proof fn lemma_top_consistent(p: PlayerView, now: u64)
    requires
        !p.quit,
        in_step(p, 0),
    ensures
        consistent(top(p, now)),
{
    if let Some(e) = p.next_event {
        if p.paused is None && e.time <= elapsed(p.epoch, now) {
            lemma_dispatch_consistent(p, e);
        }
    }
}

proof fn lemma_dispatch_consistent(p: PlayerView, e: EventView)
    requires
        !p.quit,
        in_step(p, 0),
        p.next_event == Some(e),
    ensures
        consistent(dispatch(p, e)),
        consistent(step(p, e)),
{
    let n = p.fetched.len() as int;
    lemma_replayed_last(p.fetched, n);
    assert(p.fetched.take(n - 1 + 1) =~= p.fetched.take(n));
    let q = consumed(p);
    assert(replayed_bytes(q.fetched.take(n)) + Seq::<u8>::empty() =~= replayed_bytes(
        p.fetched.take(n - 1),
    ) + e.payload.replayed());
    assert(p.written + e.payload.replayed() =~= replayed_bytes(p.fetched.take(n - 1))
        + e.payload.replayed()) by {
        assert(p.written =~= replayed_bytes(p.fetched.take(n - 1)));
    }
    match e.payload {
        PayloadView::Output(data) => {
            assert(wrote(q, data).written =~= replayed_bytes(q.fetched.take(n)) + Seq::<
                u8,
            >::empty());
        },
        _ => {
            assert(q.written =~= replayed_bytes(q.fetched.take(n)) + Seq::<u8>::empty());
        },
    }
}

proof fn lemma_drain_consistent(p: PlayerView)
    requires
        !p.quit,
        in_step(p, 0),
    ensures
        consistent(drain(p)),
{
}

proof fn lemma_quit_consistent(p: PlayerView)
    requires
        !p.quit,
        in_step(p, 0),
    ensures
        consistent(quit(p)),
{
    assert(p.written + line_break() =~= (p.written + Seq::<u8>::empty()) + line_break());
    let q = PlayerView { quit: true, ..wrote(p, line_break()) };
    let waiting = if p.next_event is Some {
        1nat
    } else {
        0nat
    };
    let base = replayed_bytes(p.fetched.take(p.fetched.len() - waiting));
    assert(p.written =~= base);
    assert(q.written =~= base + line_break());
}

/// Fetching an event keeps a playback consistent.
pub proof fn lemma_on_event_consistent(
    p: PlayerView,
    cont: EventContView,
    event: Option<EventView>,
    now: u64,
)
    requires
        consistent(ActionView::Fetch(p, cont)),
    ensures
        consistent(on_event(p, cont, event, now)),
{
    let q = match event {
        Some(e) => PlayerView { next_event: event, fetched: p.fetched.push(e), ..p },
        None => PlayerView { next_event: event, ..p },
    };
    let n = p.fetched.len() as int;
    match cont {
        EventContView::Top => {
            if event is Some {
                assert(q.fetched.take(n) =~= p.fetched.take(n));
            }
            lemma_top_consistent(q, now);
        },
        EventContView::Drain(held) => {
            lemma_replayed_last(p.fetched, n);
            let shown = replayed_bytes(p.fetched.take(n - 1));
            assert(p.written =~= shown);
            assert(p.fetched.take(n) =~= p.fetched);
            if event is Some {
                assert(q.fetched.take(n) =~= p.fetched);
                assert(q.fetched.take(n - 1) =~= p.fetched.take(n - 1));
            }
            let after = replayed_bytes(p.fetched);
            assert(after =~= shown + held.payload.replayed());
            let m = q.fetched.len() as int;
            let waiting = if event is Some {
                1int
            } else {
                0int
            };
            assert(q.fetched.take(m - waiting) =~= p.fetched);
            match held.payload {
                PayloadView::Output(data) => {
                    assert(wrote(q, data).written =~= after + Seq::<u8>::empty());
                },
                _ => {
                    assert(q.written =~= after + Seq::<u8>::empty());
                    assert(paused_at(q, held.time).written == q.written);
                    if !(held.payload is Marker) {
                        lemma_drain_consistent(q);
                    }
                },
            }
        },
    }
}

/// The end of a wait for a key keeps a playback consistent.
pub proof fn lemma_on_key_consistent(
    timeout: u64,
    p: PlayerView,
    key: Option<char>,
    now: u64,
)
    requires
        consistent(ActionView::Wait(timeout, p)),
    ensures
        consistent(on_key(p, key, now)),
{
    lemma_top_consistent(p, now);
    lemma_drain_consistent(p);
    lemma_quit_consistent(p);
    if let Some(e) = p.next_event {
        lemma_dispatch_consistent(p, e);
        lemma_top_consistent(paused_at(p, elapsed(p.epoch, now) as u64), now);
        if let Some(at) = p.paused {
            lemma_top_consistent(PlayerView { epoch: now - at, paused: None, ..p }, now);
        }
    }
}

/// A write or a flush that the terminal has taken keeps a playback
/// consistent.
pub proof fn lemma_on_done_consistent(action: ActionView, now: u64)
    requires
        consistent(action),
        action is Write || action is Flush,
    ensures
        action matches ActionView::Write(_, p, cont) ==> consistent(on_done(p, cont, now)),
        action matches ActionView::Flush(p, cont) ==> consistent(on_done(p, cont, now)),
{
    match action {
        ActionView::Write(_, p, cont) => {
            if cont != DoneCont::Finish {
                lemma_top_consistent(p, now);
                lemma_drain_consistent(p);
            }
        },
        ActionView::Flush(p, cont) => {
            lemma_top_consistent(p, now);
            lemma_drain_consistent(p);
        },
        _ => {},
    }
}

/// When a playback that was not quit is over, the terminal has received
/// exactly what the events of the recording replay, in their order. When it
/// was quit, the terminal has received that of the events that went by,
/// and a line break.
pub proof fn lemma_finished(p: PlayerView)
    requires
        consistent(ActionView::Finish(p)),
    ensures
        !p.quit ==> p.written == replayed_bytes(p.fetched),
        p.quit ==> exists|n: int|
            0 <= n <= p.fetched.len() && p.written == replayed_bytes(#[trigger] p.fetched.take(n))
                + line_break(),
{
    if !p.quit {
        assert(p.fetched.take(p.fetched.len() as int) =~= p.fetched);
        assert(p.written =~= replayed_bytes(p.fetched) + Seq::<u8>::empty());
        assert(replayed_bytes(p.fetched) + Seq::<u8>::empty() =~= replayed_bytes(p.fetched));
    } else {
        let waiting = if p.next_event is Some {
            1int
        } else {
            0int
        };
        let n = p.fetched.len() - waiting;
        assert(p.written == replayed_bytes(p.fetched.take(n)) + line_break());
    }
}

/// What a player is told after an action.
pub enum Reply {
    /// The event that was fetched, or none at the end of the recording.
    Event(Option<EventView>),
    /// The key that was pressed, or none when the time was up.
    Key(Option<char>),
    /// The terminal has taken the write or the flush.
    Done,
}

/// What follows `action` on `reply` at the reading `now` of the clock. A
/// reply that does not answer the action changes nothing.
pub open spec fn respond(action: ActionView, reply: Reply, now: u64) -> ActionView {
    match (action, reply) {
        (ActionView::Fetch(p, cont), Reply::Event(event)) => on_event(p, cont, event, now),
        (ActionView::Wait(_, p), Reply::Key(key)) => on_key(p, key, now),
        (ActionView::Write(_, p, cont), Reply::Done) => on_done(p, cont, now),
        (ActionView::Flush(p, cont), Reply::Done) => on_done(p, cont, now),
        _ => action,
    }
}

/// Where a playback stands after the given replies, each with the reading
/// of the clock at which it came.
pub open spec fn run(start: ActionView, replies: Seq<(Reply, u64)>) -> ActionView
    decreases replies.len(),
{
    if replies.len() == 0 {
        start
    } else {
        respond(run(start, replies.drop_last()), replies.last().0, replies.last().1)
    }
}

/// A playback is consistent at every moment, whatever it is told and
/// whatever the clock reads.
pub proof fn lemma_run_consistent(
    keys: KeyBindings,
    pause_on_markers: bool,
    now: u64,
    replies: Seq<(Reply, u64)>,
)
    ensures
        consistent(
            run(
                ActionView::Fetch(initial(keys, pause_on_markers, now), EventContView::Top),
                replies,
            ),
        ),
    decreases replies.len(),
{
    let start = ActionView::Fetch(initial(keys, pause_on_markers, now), EventContView::Top);
    if replies.len() == 0 {
        lemma_start_consistent(keys, pause_on_markers, now);
    } else {
        lemma_run_consistent(keys, pause_on_markers, now, replies.drop_last());
        let before = run(start, replies.drop_last());
        let reply = replies.last().0;
        let at = replies.last().1;
        match (before, reply) {
            (ActionView::Fetch(p, cont), Reply::Event(event)) => {
                lemma_on_event_consistent(p, cont, event, at);
            },
            (ActionView::Wait(timeout, p), Reply::Key(key)) => {
                lemma_on_key_consistent(timeout, p, key, at);
            },
            (ActionView::Write(_, p, cont), Reply::Done) => {
                lemma_on_done_consistent(before, at);
            },
            (ActionView::Flush(p, cont), Reply::Done) => {
                lemma_on_done_consistent(before, at);
            },
            _ => {},
        }
    }
}

/// A playback that runs to its end without a quit has handed the terminal
/// exactly what the events it fetched replay, in their order, whatever keys
/// were pressed and however long it took. Fed the concatenation of
/// recordings, through the transform chain or not, it has handed the
/// terminal what playing each of the recordings in turn hands it.
pub proof fn lemma_played_to_the_end(
    keys: KeyBindings,
    pause_on_markers: bool,
    now: u64,
    replies: Seq<(Reply, u64)>,
    recordings: Seq<Seq<EventView>>,
    limit: u64,
    numer: u64,
    denom: u64,
)
    ensures
        ({
            let start = ActionView::Fetch(
                initial(keys, pause_on_markers, now),
                EventContView::Top,
            );
            run(start, replies) matches ActionView::Finish(p) ==> !p.quit ==> {
                &&& p.written == replayed_bytes(p.fetched)
                &&& p.fetched == concat_spec(recordings) ==> p.written == replayed_in_turn(
                    recordings,
                )
                &&& p.fetched == playback_spec(concat_spec(recordings), limit, numer, denom)
                    ==> p.written == replayed_in_turn(recordings)
            }
        }),
{
    let start = ActionView::Fetch(initial(keys, pause_on_markers, now), EventContView::Top);
    lemma_run_consistent(keys, pause_on_markers, now, replies);
    if let ActionView::Finish(p) = run(start, replies) {
        lemma_finished(p);
        lemma_concat_replays_in_turn(recordings);
        lemma_playback_keeps_bytes(concat_spec(recordings), limit, numer, denom);
    }
}

} // verus!
