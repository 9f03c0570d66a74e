//! Concatenation of recordings into one, each shifted in time to follow the
//! one before it.

use crate::event::{non_decreasing, replayed_bytes, times, views, Event, EventView};
use vstd::prelude::*;

verus! {

/// The time that the last event of the concatenation of `recordings` is
/// emitted at, and so the offset of a recording that follows them: each
/// recording adds the time of its last event, and one without events adds
/// nothing.
pub open spec fn end_time(recordings: Seq<Seq<EventView>>) -> int
    decreases recordings.len(),
{
    if recordings.len() == 0 {
        0
    } else {
        let before = end_time(recordings.drop_last());
        let last = recordings.last();
        if last.len() == 0 {
            before
        } else {
            before + last.last().time
        }
    }
}

/// `events` with every time moved later by `offset`.
pub open spec fn shifted(events: Seq<EventView>, offset: int) -> Seq<EventView> {
    Seq::new(
        events.len(),
        |i: int| EventView { time: (offset + events[i].time) as u64, payload: events[i].payload },
    )
}

/// The events of the concatenation of `recordings`: those of each
/// recording in turn, moved later by the time at which the recordings
/// before it end.
pub open spec fn concat_spec(recordings: Seq<Seq<EventView>>) -> Seq<EventView>
    decreases recordings.len(),
{
    if recordings.len() == 0 {
        Seq::empty()
    } else {
        concat_spec(recordings.drop_last()) + shifted(
            recordings.last(),
            end_time(recordings.drop_last()),
        )
    }
}

/// Every event of recording `k` still has a time of 64 bits once it is
/// moved behind the recordings before it.
pub open spec fn recording_fits(recordings: Seq<Seq<EventView>>, k: int) -> bool {
    forall|i: int|
        0 <= i < recordings[k].len() ==> end_time(recordings.take(k)) + (
        #[trigger] recordings[k][i]).time <= u64::MAX
}

/// Every event of the concatenation of `recordings` has a time of 64 bits.
pub open spec fn fits(recordings: Seq<Seq<EventView>>) -> bool {
    forall|k: int| 0 <= k < recordings.len() ==> recording_fits(recordings, k)
}

/// The models of a list of recordings.
pub open spec fn recording_views(recordings: Seq<Vec<Event>>) -> Seq<Seq<EventView>> {
    recordings.map_values(|r: Vec<Event>| views(r@))
}

/// The concatenation would carry an event past the largest time there is.
#[derive(Clone, Copy, Debug, PartialEq, Eq)]
pub struct TimeOverflow {
    /// Which of the recordings, counted from zero, holds the event.
    pub recording: usize,
}

/// The recordings that one run of the command concatenates, by file name:
/// at least one.
#[derive(Debug)]
pub struct Cli {
    filename: Vec<String>,
}

impl Cli {
    #[verifier::type_invariant]
    spec fn non_empty(self) -> bool {
        self.filename@.len() > 0
    }

    /// The file names, in the order in which the recordings follow each
    /// other.
    pub closed spec fn names(self) -> Seq<String> {
        self.filename@
    }

    /// The command on the given file names; there is none on an empty list.
    pub fn new(filename: Vec<String>) -> (cli: Option<Cli>)
        ensures
            cli is Some <==> filename@.len() > 0,
            cli matches Some(c) ==> c.names() == filename@,
    {
        if filename.len() > 0 {
            Some(Cli { filename })
        } else {
            None
        }
    }

    /// The file names, in the order in which the recordings follow each
    /// other.
    pub fn filename(&self) -> (names: &Vec<String>)
        ensures
            names@ == self.names(),
            names@.len() > 0,
    {
        proof {
            use_type_invariant(self);
        }
        &self.filename
    }
}

/// The state of a concatenation between two recordings.
pub struct Concat {
    time_offset: u64,
    first: bool,
    done: Ghost<Seq<Seq<EventView>>>,
}

/// The state of a concatenation within one recording.
pub struct Part {
    time_offset: u64,
    time: u64,
    first: bool,
    done: Ghost<Seq<Seq<EventView>>>,
    current: Ghost<Seq<EventView>>,
}

impl Concat {
    #[verifier::type_invariant]
    spec fn consistent(self) -> bool {
        &&& self.time_offset == end_time(self.done@)
        &&& self.first == (self.done@.len() == 0)
    }

    /// The recordings that went through so far, in order.
    pub closed spec fn done(self) -> Seq<Seq<EventView>> {
        self.done@
    }

    /// A concatenation that no recording went through yet.
    pub fn new() -> (concat: Concat)
        ensures
            concat.done() == Seq::<Seq<EventView>>::empty(),
    {
        Concat { time_offset: 0, first: true, done: Ghost(Seq::empty()) }
    }

    /// Starts on the next recording.
    pub fn begin(self) -> (part: Part)
        ensures
            part.done() == self.done(),
            part.current() == Seq::<EventView>::empty(),
    {
        proof {
            use_type_invariant(&self);
            assert(self.done@.push(Seq::<EventView>::empty()).drop_last() =~= self.done@);
        }
        Part {
            time_offset: self.time_offset,
            time: self.time_offset,
            first: self.first,
            done: self.done,
            current: Ghost(Seq::empty()),
        }
    }
}

impl Part {
    #[verifier::type_invariant]
    spec fn consistent(self) -> bool {
        &&& self.time_offset == end_time(self.done@)
        &&& self.time == end_time(self.done@.push(self.current@))
        &&& self.first == (self.done@.len() == 0)
    }

    /// The recordings that went through before this one, in order.
    pub closed spec fn done(self) -> Seq<Seq<EventView>> {
        self.done@
    }

    /// The events of this recording that went through so far, in order, as
    /// they came in.
    pub closed spec fn current(self) -> Seq<EventView> {
        self.current@
    }

    /// Whether the header of this recording belongs in the concatenation:
    /// only that of the first recording does.
    pub fn header_due(&self) -> (due: bool)
        ensures
            due == (self.done().len() == 0),
    {
        proof {
            use_type_invariant(self);
        }
        self.first
    }

    /// Takes the next event of this recording and returns it as it stands in
    /// the concatenation: moved later by the time at which the recordings
    /// before this one end. An event that this would carry past the largest
    /// time is refused, and does not count as gone through.
    pub fn shift(&mut self, event: Event) -> (result: Option<Event>)
        ensures
            final(self).done() == old(self).done(),
            match result {
                Some(out) => {
                    &&& end_time(old(self).done()) + event.time <= u64::MAX
                    &&& out.time == end_time(old(self).done()) + event.time
                    &&& out.payload == event.payload
                    &&& final(self).current() == old(self).current().push(event@)
                },
                None => {
                    &&& end_time(old(self).done()) + event.time > u64::MAX
                    &&& final(self).current() == old(self).current()
                },
            },
    {
        proof {
            use_type_invariant(&*self);
        }
        match self.time_offset.checked_add(event.time) {
            Some(time) => {
                let ghost current = self.current@.push(event@);
                proof {
                    assert(self.done@.push(current).drop_last() =~= self.done@);
                }
                *self = Part {
                    time_offset: self.time_offset,
                    time,
                    first: self.first,
                    done: self.done,
                    current: Ghost(current),
                };
                Some(Event { time, payload: event.payload })
            },
            None => None,
        }
    }

    /// Ends this recording: the next one follows at the time of the last
    /// event that went through.
    pub fn end(self) -> (concat: Concat)
        ensures
            concat.done() == self.done().push(self.current()),
    {
        proof {
            use_type_invariant(&self);
        }
        Concat { time_offset: self.time, first: false, done: Ghost(self.done@.push(self.current@)) }
    }
}

/// Concatenates whole recordings: the events of each in turn, moved later by
/// the time at which the recordings before it end. Where that would carry an
/// event past the largest time, the first recording with such an event is
/// named instead.
pub fn concatenate(recordings: Vec<Vec<Event>>) -> (result: Result<Vec<Event>, TimeOverflow>)
    ensures
        match result {
            Ok(out) => {
                &&& fits(recording_views(recordings@))
                &&& views(out@) == concat_spec(recording_views(recordings@))
            },
            Err(e) => {
                &&& e.recording < recordings@.len()
                &&& !recording_fits(recording_views(recordings@), e.recording as int)
                &&& forall|k: int|
                    0 <= k < e.recording ==> recording_fits(recording_views(recordings@), k)
            },
        },
{
    let ghost all = recording_views(recordings@);
    let mut concat = Concat::new();
    let mut out: Vec<Event> = Vec::new();
    let mut index: usize = 0;
    let count: usize = recordings.len();
    proof {
        assert(all.take(0) =~= Seq::<Seq<EventView>>::empty());
    }
    for recording in it: recordings
        invariant
            it.seq() == recordings@,
            all == recording_views(recordings@),
            count == recordings@.len(),
            index == it.index(),
            concat.done() == all.take(index as int),
            views(out@) == concat_spec(all.take(index as int)),
            forall|k: int| 0 <= k < index ==> recording_fits(all, k),
    {
        let ghost front = all.take(index as int);
        let ghost whole = views(recording@);
        assert(index < recordings@.len());
        assert(all[index as int] == whole);
        let mut part = concat.begin();
        proof {
            assert(whole.take(0) =~= Seq::<EventView>::empty());
            assert(views(out@) =~= concat_spec(front) + shifted(whole.take(0), end_time(front)));
        }
        for event in jt: recording
            invariant
                jt.seq() == recording@,
                whole == views(recording@),
                all == recording_views(recordings@),
                count == recordings@.len(),
                index < recordings@.len(),
                forall|k: int| 0 <= k < index ==> recording_fits(all, k),
                all[index as int] == whole,
                front == all.take(index as int),
                part.done() == front,
                part.current() == whole.take(jt.index() as int),
                views(out@) == concat_spec(front) + shifted(
                    whole.take(jt.index() as int),
                    end_time(front),
                ),
                forall|i: int|
                    0 <= i < jt.index() ==> end_time(front) + (#[trigger] whole[i]).time
                        <= u64::MAX,
        {
            let ghost i = jt.index() as int;
            let ghost before = views(out@);
            match part.shift(event) {
                Some(moved) => {
                    out.push(moved);
                    proof {
                        assert(whole.take(i).push(whole[i]) =~= whole.take(i + 1));
                        assert(views(out@) =~= before.push(moved@));
                        assert(views(out@) =~= concat_spec(front) + shifted(
                            whole.take(i + 1),
                            end_time(front),
                        ));
                    }
                },
                None => {
                    assert(!recording_fits(all, index as int)) by {
                        assert(end_time(all.take(index as int)) + all[index as int][i].time
                            > u64::MAX);
                    }
                    return Err(TimeOverflow { recording: index });
                },
            }
        }
        concat = part.end();
        assert(index < count);
        proof {
            assert(whole.take(whole.len() as int) =~= whole);
            assert(all.take(index + 1).drop_last() =~= front);
            assert(all.take(index + 1) =~= front.push(whole));
            assert(recording_fits(all, index as int));
        }
        index += 1;
    }
    proof {
        assert(all.take(all.len() as int) =~= all);
    }
    Ok(out)
}

/// Everything a terminal receives when the recordings are replayed one
/// after the other.
pub open spec fn replayed_in_turn(recordings: Seq<Seq<EventView>>) -> Seq<u8>
    decreases recordings.len(),
{
    if recordings.len() == 0 {
        Seq::empty()
    } else {
        replayed_in_turn(recordings.drop_last()) + replayed_bytes(recordings.last())
    }
}

/// Replaying one stream after another gives the bytes of the first followed
/// by those of the second.
pub proof fn lemma_replayed_bytes_concat(first: Seq<EventView>, second: Seq<EventView>)
    ensures
        replayed_bytes(first + second) == replayed_bytes(first) + replayed_bytes(second),
    decreases second.len(),
{
    if second.len() == 0 {
        assert(first + second =~= first);
        assert(replayed_bytes(first) + replayed_bytes(second) =~= replayed_bytes(first));
    } else {
        lemma_replayed_bytes_concat(first, second.drop_last());
        assert((first + second).drop_last() =~= first + second.drop_last());
        assert(replayed_bytes(first + second) =~= replayed_bytes(first) + replayed_bytes(second));
    }
}

/// Moving a stream in time changes nothing of what a terminal receives when
/// it is replayed.
pub proof fn lemma_replayed_bytes_shifted(events: Seq<EventView>, offset: int)
    ensures
        replayed_bytes(shifted(events, offset)) == replayed_bytes(events),
    decreases events.len(),
{
    if events.len() > 0 {
        lemma_replayed_bytes_shifted(events.drop_last(), offset);
        assert(shifted(events, offset).drop_last() =~= shifted(events.drop_last(), offset));
    }
}

/// Replaying the concatenation of recordings sends a terminal the same bytes
/// in the same order as replaying each of the recordings in turn.
pub proof fn lemma_concat_replays_in_turn(recordings: Seq<Seq<EventView>>)
    ensures
        replayed_bytes(concat_spec(recordings)) == replayed_in_turn(recordings),
    decreases recordings.len(),
{
    if recordings.len() > 0 {
        let front = recordings.drop_last();
        lemma_concat_replays_in_turn(front);
        lemma_replayed_bytes_shifted(recordings.last(), end_time(front));
        lemma_replayed_bytes_concat(
            concat_spec(front),
            shifted(recordings.last(), end_time(front)),
        );
    }
}

/// In the concatenation of recordings whose times never step backwards, no
/// event lies after the end of the recordings, and the times never step
/// backwards either.
pub proof fn lemma_concat_non_decreasing(recordings: Seq<Seq<EventView>>)
    requires
        fits(recordings),
        forall|k: int| 0 <= k < recordings.len() ==> non_decreasing(times(#[trigger] recordings[k])),
    ensures
        non_decreasing(times(concat_spec(recordings))),
        forall|i: int|
            0 <= i < concat_spec(recordings).len() ==> (#[trigger] concat_spec(recordings)[i]).time
                <= end_time(recordings),
        0 <= end_time(recordings),
    decreases recordings.len(),
{
    if recordings.len() > 0 {
        let front = recordings.drop_last();
        let last = recordings.last();
        let k = recordings.len() - 1;
        assert forall|j: int| 0 <= j < front.len() implies recording_fits(front, j) by {
            assert(recording_fits(recordings, j));
            assert(front.take(j) =~= recordings.take(j));
        }
        lemma_concat_non_decreasing(front);
        assert(recording_fits(recordings, k));
        assert(recordings.take(k) =~= front);
        let offset = end_time(front);
        let tail = shifted(last, offset);
        let whole = concat_spec(recordings);
        assert(non_decreasing(times(last)));
        assert forall|i: int| 0 <= i < tail.len() implies offset <= (#[trigger] tail[i]).time
            <= end_time(recordings) by {
            assert(times(last)[i] <= times(last)[last.len() - 1]);
        }
        assert forall|i: int, j: int| 0 <= i <= j < whole.len() implies times(whole)[i] <= times(
            whole,
        )[j] by {
            let n = concat_spec(front).len();
            if j < n {
                assert(times(concat_spec(front))[i] <= times(concat_spec(front))[j]);
            } else if i < n {
                assert(concat_spec(front)[i].time <= offset);
                assert(offset <= tail[j - n].time);
            } else {
                assert(times(last)[i - n] <= times(last)[j - n]);
            }
        }
    }
}

} // verus!
