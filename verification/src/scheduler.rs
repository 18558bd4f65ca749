//! The playback scheduler's decisions: which tracks a tick triggers, how the
//! cursor moves, when a pattern update is swapped in and when the loop ends.
//! The thread that sleeps and plays runs around these functions.

use vstd::prelude::*;
use crossbeam_channel::Receiver;
use crate::drum_machine::{DrumMachineView, Message};
use crate::pattern::grid;
use crate::scale::SequenceScale;
use crate::state::SequenceStateView;
use crate::timing::{spec_tick_nanos, tick_duration_nanos};

verus! {

/// The receiving end of the pattern update channel.
#[verifier::external_type_specification]
#[verifier::external_body]
#[verifier::reject_recursive_types(T)]
pub struct ExReceiver<T>(crossbeam_channel::Receiver<T>);

/// What one look at the update channel found.
#[derive(Debug, Clone, PartialEq, Eq)]
pub enum Polled {
    /// A pattern snapshot was waiting.
    Update(Vec<Vec<bool>>),
    /// Nothing was waiting.
    Empty,
    /// Nothing was waiting and the editor's end is gone.
    Disconnected,
}

/// What one look at the update channel found, as plain values.
pub enum PolledView {
    Update(Seq<Seq<bool>>),
    Empty,
    Disconnected,
}

impl View for Polled {
    type V = PolledView;

    open spec fn view(&self) -> PolledView {
        match self {
            Polled::Update(pattern) => PolledView::Update(grid(pattern@)),
            Polled::Empty => PolledView::Empty,
            Polled::Disconnected => PolledView::Disconnected,
        }
    }
}

/// What the scheduler does between two looks at the playing flag while it
/// waits out the rest of a tick.
#[derive(Debug, Clone, Copy, PartialEq, Eq, Structural)]
pub enum Wait {
    /// Keep waiting for one more short slice.
    Sleep,
    /// The tick is over: run the next one.
    Wake,
    /// Playback was stopped: leave the loop now.
    Halt,
}

/// One tick's work for the thread that plays: the beat that was reached, the
/// tracks to trigger in track order, and the length of the tick.
#[derive(Debug, Clone, PartialEq, Eq)]
pub struct Tick {
    pub beat: usize,
    pub triggers: Vec<usize>,
    pub duration_nanos: u64,
}

/// The scheduler: stopped or running, with its cursor and its working copy of
/// the pattern.
#[derive(Debug, Clone, PartialEq, Eq)]
pub struct Scheduler {
    pub playing: bool,
    pub cursor: usize,
    pub pattern: Vec<Vec<bool>>,
}

/// The scheduler as plain values.
pub struct SchedulerView {
    pub playing: bool,
    pub cursor: nat,
    pub pattern: Seq<Seq<bool>>,
}

/// Whether the grid has the cell and it is active.
pub open spec fn cell_active(cells: Seq<Seq<bool>>, track: int, beat: int) -> bool {
    0 <= track < cells.len() && 0 <= beat < cells[track].len() && cells[track][beat]
}

/// The tracks among the first `tracks` rows whose cell at `beat` is active, in
/// track order.
pub open spec fn active_tracks(cells: Seq<Seq<bool>>, beat: int, tracks: nat) -> Seq<usize>
    decreases tracks,
{
    if tracks == 0 {
        Seq::empty()
    } else {
        let before = active_tracks(cells, beat, (tracks - 1) as nat);
        if cell_active(cells, tracks - 1, beat) {
            before.push((tracks - 1) as usize)
        } else {
            before
        }
    }
}

/// The rest of a tick after `elapsed` nanoseconds of work: nothing where the
/// work took the whole tick or more.
pub open spec fn spec_residual(duration: int, elapsed: int) -> int {
    if elapsed < duration {
        duration - elapsed
    } else {
        0
    }
}

/// Stopped ends the wait at once; else the wait goes on until the residual
/// has been slept.
pub open spec fn spec_wait(playing: bool, slept: int, residual: int) -> Wait {
    if !playing {
        Wait::Halt
    } else if slept < residual {
        Wait::Sleep
    } else {
        Wait::Wake
    }
}

impl SchedulerView {
    /// A scheduler that has not run yet.
    pub open spec fn idle() -> SchedulerView {
        SchedulerView { playing: false, cursor: 0, pattern: Seq::empty() }
    }

    /// After a start request: a stopped scheduler runs from beat 0 on a copy of
    /// `pattern`; a running one goes on as it is.
    pub open spec fn started(self, pattern: Seq<Seq<bool>>) -> SchedulerView {
        if self.playing {
            self
        } else {
            SchedulerView { playing: true, cursor: 0, pattern }
        }
    }

    /// After a stop request: stopped, with the cursor back at beat 0.
    pub open spec fn stopped(self) -> SchedulerView {
        SchedulerView { playing: false, cursor: 0, pattern: self.pattern }
    }

    /// After one look at the update channel. A stopped scheduler ignores it. A
    /// running one swaps a snapshot in for the ticks to come and keeps its
    /// cursor; a closed channel stops it.
    pub open spec fn received(self, polled: PolledView) -> SchedulerView {
        if !self.playing {
            self
        } else {
            match polled {
                PolledView::Update(pattern) => SchedulerView { pattern, ..self },
                PolledView::Empty => self,
                PolledView::Disconnected => self.stopped(),
            }
        }
    }

    /// After a run of looks at the update channel, in order.
    pub open spec fn received_all(self, polls: Seq<PolledView>) -> SchedulerView
        decreases polls.len(),
    {
        if polls.len() == 0 {
            self
        } else {
            self.received_all(polls.drop_last()).received(polls.last())
        }
    }

    /// The beat that the next tick plays: the cursor, wrapped to the sequence
    /// length in case the sequence shrank under it.
    pub open spec fn beat(self, sequence_length: int) -> int
        recommends
            sequence_length > 0,
    {
        self.cursor as int % sequence_length
    }

    /// The tracks that the next tick triggers, in track order.
    pub open spec fn triggers(self, sequence_length: int) -> Seq<usize>
        recommends
            sequence_length > 0,
    {
        active_tracks(self.pattern, self.beat(sequence_length), self.pattern.len())
    }

    /// After a tick: the cursor one beat on, wrapping at the sequence length.
    pub open spec fn ticked(self, sequence_length: int) -> SchedulerView
        recommends
            sequence_length > 0,
    {
        if self.playing {
            SchedulerView {
                cursor: ((self.beat(sequence_length) + 1) % sequence_length) as nat,
                ..self
            }
        } else {
            self
        }
    }
}

impl View for Scheduler {
    type V = SchedulerView;

    open spec fn view(&self) -> SchedulerView {
        SchedulerView {
            playing: self.playing,
            cursor: self.cursor as nat,
            pattern: grid(self.pattern@),
        }
    }
}

/// One `try_recv` on crossbeam's `Receiver`, its three outcomes told apart.
/// Nothing is promised of the outcome: it depends on the sending thread.
#[verifier::external_body]
fn poll_channel(updates: &Receiver<Vec<Vec<bool>>>) -> (polled: Polled) {
    match updates.try_recv() {
        Ok(pattern) => Polled::Update(pattern),
        Err(crossbeam_channel::TryRecvError::Empty) => Polled::Empty,
        Err(crossbeam_channel::TryRecvError::Disconnected) => Polled::Disconnected,
    }
}

/// `Receiver::len`: the number of messages queued at the moment of the call.
/// Nothing is promised of it: the sending thread may add more at any time.
#[verifier::external_body]
fn pending_updates(updates: &Receiver<Vec<Vec<bool>>>) -> (pending: usize) {
    updates.len()
}

/// The tracks of `pattern` whose cell at `beat` is active, in track order.
pub fn tracks_at(pattern: &Vec<Vec<bool>>, beat: usize) -> (triggers: Vec<usize>)
    ensures
        triggers@ == active_tracks(grid(pattern@), beat as int, pattern.len() as nat),
{
    let mut triggers: Vec<usize> = Vec::new();
    let mut track: usize = 0;
    while track < pattern.len()
        invariant
            track <= pattern.len(),
            triggers@ == active_tracks(grid(pattern@), beat as int, track as nat),
        decreases pattern.len() - track,
    {
        if beat < pattern[track].len() && pattern[track][beat] {
            triggers.push(track);
        }
        track += 1;
    }
    triggers
}

/// The rest of a tick to wait out after `elapsed_nanos` of work.
pub fn residual_sleep(duration_nanos: u64, elapsed_nanos: u64) -> (residual: u64)
    ensures
        residual == spec_residual(duration_nanos as int, elapsed_nanos as int),
{
    if elapsed_nanos < duration_nanos {
        duration_nanos - elapsed_nanos
    } else {
        0
    }
}

/// What to do at one look at the playing flag during the wait. A cleared flag
/// halts whatever is left of the tick.
pub fn poll_wait(playing: bool, slept_nanos: u64, residual_nanos: u64) -> (wait: Wait)
    ensures
        wait == spec_wait(playing, slept_nanos as int, residual_nanos as int),
        !playing ==> wait == Wait::Halt,
{
    if !playing {
        Wait::Halt
    } else if slept_nanos < residual_nanos {
        Wait::Sleep
    } else {
        Wait::Wake
    }
}

impl Scheduler {
    /// A stopped scheduler at beat 0 with no pattern.
    pub fn new() -> (scheduler: Scheduler)
        ensures
            scheduler@ == SchedulerView::idle(),
    {
        let scheduler = Scheduler { playing: false, cursor: 0, pattern: Vec::new() };
        proof {
            assert(grid(scheduler.pattern@) =~= Seq::empty());
        }
        scheduler
    }

    /// A start request with the pattern as it is now.
    pub fn start(&mut self, pattern: Vec<Vec<bool>>)
        ensures
            final(self)@ == old(self)@.started(grid(pattern@)),
    {
        if !self.playing {
            self.playing = true;
            self.cursor = 0;
            self.pattern = pattern;
        }
    }

    /// A stop request.
    pub fn stop(&mut self)
        ensures
            final(self)@ == old(self)@.stopped(),
    {
        self.playing = false;
        self.cursor = 0;
    }

    /// Takes in what one look at the update channel found.
    pub fn receive(&mut self, polled: Polled)
        ensures
            final(self)@ == old(self)@.received(polled@),
    {
        if self.playing {
            match polled {
                Polled::Update(pattern) => {
                    self.pattern = pattern;
                },
                Polled::Empty => {},
                Polled::Disconnected => {
                    self.stop();
                },
            }
        }
    }

    /// Empties the update channel at the top of a tick: every snapshot that
    /// waits is taken in, in the order sent, so the latest one stays. A
    /// stopped scheduler does not touch the channel.
    pub fn drain(&mut self, updates: &Receiver<Vec<Vec<bool>>>)
        ensures
            exists|polls: Seq<PolledView>| final(self)@ == #[trigger] old(self)@.received_all(polls),
            !old(self)@.playing ==> final(self)@ == old(self)@,
    {
        let ghost mut polls: Seq<PolledView> = Seq::empty();
        if !self.playing {
            proof {
                assert(self@ == old(self)@.received_all(polls));
            }
            return ;
        }
        let pending: usize = pending_updates(updates);
        let mut taken: usize = 0;
        let mut open: bool = true;
        while open
            invariant
                taken <= pending,
                self@ == old(self)@.received_all(polls),
            decreases pending - taken, open as int,
        {
            let polled = poll_channel(updates);
            let more: bool = match polled {
                Polled::Update(_) => taken < pending,
                _ => false,
            };
            proof {
                let next = polls.push(polled@);
                assert(next.drop_last() =~= polls);
                polls = next;
            }
            self.receive(polled);
            if more {
                taken += 1;
            } else {
                open = false;
            }
        }
    }

    /// Runs one tick: says which beat was reached, which tracks it triggers
    /// and how long it lasts at this tempo and scale, and moves the cursor on.
    /// A stopped scheduler does nothing.
    pub fn tick(&mut self, bpm: u32, scale: SequenceScale, sequence_length: u32) -> (tick: Option<Tick>)
        requires
            bpm > 0,
            sequence_length > 0,
        ensures
            final(self)@ == old(self)@.ticked(sequence_length as int),
            tick is Some == old(self)@.playing,
            tick matches Some(t) ==> {
                &&& t.beat == old(self)@.beat(sequence_length as int)
                &&& t.triggers@ == old(self)@.triggers(sequence_length as int)
                &&& t.duration_nanos == spec_tick_nanos(bpm as int, scale)
            },
    {
        if !self.playing {
            return None;
        }
        let length: usize = sequence_length as usize;
        let beat: usize = self.cursor % length;
        let triggers = tracks_at(&self.pattern, beat);
        let duration_nanos = tick_duration_nanos(bpm, scale);
        self.cursor = (beat + 1) % length;
        Some(Tick { beat, triggers, duration_nanos })
    }
}

impl Scheduler {
    /// One pass of the playback loop up to the wait: first the update channel
    /// is emptied, then the tick runs on whatever pattern that left. `None`
    /// says that the loop has ended: playback was stopped, or the channel is
    /// closed.
    pub fn step(
        &mut self,
        updates: &Receiver<Vec<Vec<bool>>>,
        bpm: u32,
        scale: SequenceScale,
        sequence_length: u32,
    ) -> (tick: Option<Tick>)
        requires
            bpm > 0,
            sequence_length > 0,
        ensures
            exists|polls: Seq<PolledView>|
                {
                    let drained = #[trigger] old(self)@.received_all(polls);
                    &&& final(self)@ == drained.ticked(sequence_length as int)
                    &&& tick is Some == drained.playing
                    &&& tick matches Some(t) ==> {
                        &&& t.beat == drained.beat(sequence_length as int)
                        &&& t.triggers@ == drained.triggers(sequence_length as int)
                        &&& t.duration_nanos == spec_tick_nanos(bpm as int, scale)
                    }
                },
            !old(self)@.playing ==> tick is None && final(self)@ == old(self)@,
    {
        self.drain(updates);
        self.tick(bpm, scale, sequence_length)
    }
}

/// An edit made while the scheduler is stopped leaves the scheduler as it was,
/// whatever the update channel holds.
pub proof fn lemma_stopped_ignores_updates(scheduler: SchedulerView, polls: Seq<PolledView>)
    requires
        !scheduler.playing,
    ensures
        scheduler.received_all(polls) == scheduler,
    decreases polls.len(),
{
    if polls.len() > 0 {
        lemma_stopped_ignores_updates(scheduler, polls.drop_last());
    }
}

/// Snapshots taken in while running are applied in the order sent, so after a
/// run of them the latest is the working pattern; the cursor has not moved.
pub proof fn lemma_drain_keeps_latest(scheduler: SchedulerView, polls: Seq<PolledView>)
    requires
        scheduler.playing,
        polls.len() > 0,
        forall|i: int| 0 <= i < polls.len() ==> #[trigger] polls[i] is Update,
    ensures
        scheduler.received_all(polls).playing,
        scheduler.received_all(polls).cursor == scheduler.cursor,
        PolledView::Update(scheduler.received_all(polls).pattern) == polls.last(),
    decreases polls.len(),
{
    let earlier = polls.drop_last();
    assert(polls.last() == polls[polls.len() - 1]);
    if earlier.len() > 0 {
        assert forall|i: int| 0 <= i < earlier.len() implies #[trigger] earlier[i] is Update by {
            assert(earlier[i] == polls[i]);
        }
        lemma_drain_keeps_latest(scheduler, earlier);
    } else {
        assert(scheduler.received_all(earlier) == scheduler);
    }
}

/// A snapshot taken in while running is what the very next tick plays, at the
/// beat the cursor had reached: the update moves no cursor, and the tick after
/// the update triggers exactly the active cells of the new pattern.
pub proof fn lemma_update_seen_at_next_tick(
    scheduler: SchedulerView,
    pattern: Seq<Seq<bool>>,
    sequence_length: int,
)
    requires
        scheduler.playing,
        sequence_length > 0,
    ensures
        scheduler.received(PolledView::Update(pattern)).playing,
        scheduler.received(PolledView::Update(pattern)).cursor == scheduler.cursor,
        scheduler.received(PolledView::Update(pattern)).triggers(sequence_length) == active_tracks(
            pattern,
            scheduler.beat(sequence_length),
            pattern.len(),
        ),
{
}

/// An edit of a cell that the grid has is pushed as a snapshot of the whole
/// edited grid. A stopped scheduler is not changed by it. A running one plays
/// the edited grid at its very next tick, at the beat its cursor had reached.
pub proof fn lemma_edit_is_played_next(
    machine: DrumMachineView,
    state: SequenceStateView,
    track: usize,
    beat: usize,
    active: bool,
    scheduler: SchedulerView,
    sequence_length: int,
)
    requires
        state.has_cell(track as int, beat as int),
        sequence_length > 0,
    ensures
        machine.step(state, Message::UpdateBeatPattern(track, beat, active)).effects.pattern_update
            == Some(state.with_beat(track as int, beat as int, active).beat_pattern),
        machine.step(state, Message::UpdateBeatPattern(track, beat, active)).state
            == state.with_beat(track as int, beat as int, active),
        !scheduler.playing ==> scheduler.received(
            PolledView::Update(state.with_beat(track as int, beat as int, active).beat_pattern),
        ) == scheduler,
        scheduler.playing ==> scheduler.received(
            PolledView::Update(state.with_beat(track as int, beat as int, active).beat_pattern),
        ).triggers(sequence_length) == active_tracks(
            state.with_beat(track as int, beat as int, active).beat_pattern,
            scheduler.beat(sequence_length),
            state.beat_pattern.len(),
        ),
{
}

/// The cursor walks the sequence in a circle: a tick plays a beat of the
/// sequence and leaves the cursor on the beat after it, or on beat 0 after the
/// last one, wherever the cursor stood before.
pub proof fn lemma_cursor_walks_in_circle(scheduler: SchedulerView, sequence_length: int)
    requires
        scheduler.playing,
        sequence_length > 0,
    ensures
        0 <= scheduler.beat(sequence_length) < sequence_length,
        scheduler.ticked(sequence_length).cursor < sequence_length,
        scheduler.ticked(sequence_length).cursor == if scheduler.beat(sequence_length) + 1
            == sequence_length {
            0
        } else {
            scheduler.beat(sequence_length) + 1
        },
        scheduler.cursor < sequence_length ==> scheduler.beat(sequence_length) == scheduler.cursor,
        scheduler.ticked(sequence_length).pattern == scheduler.pattern,
        scheduler.ticked(sequence_length).playing,
{
    let beat = scheduler.beat(sequence_length);
    vstd::arithmetic::div_mod::lemma_mod_pos_bound(scheduler.cursor as int, sequence_length);
    if beat + 1 == sequence_length {
        vstd::arithmetic::div_mod::lemma_mod_self_0(sequence_length);
    } else {
        vstd::arithmetic::div_mod::lemma_small_mod((beat + 1) as nat, sequence_length as nat);
    }
    if scheduler.cursor < sequence_length {
        vstd::arithmetic::div_mod::lemma_small_mod(scheduler.cursor, sequence_length as nat);
    }
}

/// A stop request ends the wait at the next look at the flag, however much of
/// the tick is left.
pub proof fn lemma_stop_cuts_wait(slept: int, residual: int)
    ensures
        spec_wait(false, slept, residual) == Wait::Halt,
{
}

/// The triggers of a beat are exactly the tracks whose cell at that beat is
/// active, each once, in rising order.
pub proof fn lemma_active_tracks(cells: Seq<Seq<bool>>, beat: int, tracks: nat)
    requires
        tracks <= cells.len(),
        cells.len() <= usize::MAX,
    ensures
        forall|i: int|
            0 <= i < active_tracks(cells, beat, tracks).len() ==> {
                &&& (#[trigger] active_tracks(cells, beat, tracks)[i]) < tracks
                &&& cell_active(cells, active_tracks(cells, beat, tracks)[i] as int, beat)
            },
        forall|i: int, j: int|
            0 <= i < j < active_tracks(cells, beat, tracks).len() ==> active_tracks(
                cells,
                beat,
                tracks,
            )[i] < active_tracks(cells, beat, tracks)[j],
        forall|track: int|
            0 <= track < tracks && cell_active(cells, track, beat) ==> active_tracks(
                cells,
                beat,
                tracks,
            ).contains(track as usize),
    decreases tracks,
{
    if tracks > 0 {
        let before = active_tracks(cells, beat, (tracks - 1) as nat);
        let now = active_tracks(cells, beat, tracks);
        lemma_active_tracks(cells, beat, (tracks - 1) as nat);
        assert forall|track: int| 0 <= track < tracks && cell_active(cells, track, beat) implies now.contains(
            track as usize,
        ) by {
            if track < tracks - 1 {
                let at = choose|i: int| 0 <= i < before.len() && before[i] == track as usize;
                assert(now[at] == track as usize);
            } else {
                assert(now[now.len() - 1] == track as usize);
            }
        }
    }
}

} // verus!
