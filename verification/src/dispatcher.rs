//! The sample trigger dispatcher's decisions: which file each triggered
//! track plays. Opening, decoding and playing the file is the caller's part.

use vstd::prelude::*;
use vstd::string::*;
use crate::drum_machine::{slots_view, SampleSlot, SampleSlotView};
use crate::scheduler::Tick;

verus! {

/// One sample to play: the track that triggered it, the directory and name
/// of its file, and the length of the tick it falls on.
#[derive(Debug, Clone, PartialEq, Eq)]
pub struct Hit {
    pub track: usize,
    pub directory: String,
    pub name: String,
    pub duration_nanos: u64,
}

/// A hit as plain values.
pub struct HitView {
    pub track: usize,
    pub directory: Seq<char>,
    pub name: Seq<char>,
    pub duration_nanos: u64,
}

impl View for Hit {
    type V = HitView;

    open spec fn view(&self) -> HitView {
        HitView {
            track: self.track,
            directory: self.directory@,
            name: self.name@,
            duration_nanos: self.duration_nanos,
        }
    }
}

/// The hits that a vector of hits stands for.
pub open spec fn hits_view(hits: Seq<Hit>) -> Seq<HitView> {
    Seq::new(hits.len(), |i: int| hits[i]@)
}

/// The directory of a slot's file: the sample root, a slash, the kit's folder.
pub open spec fn slot_directory(root: Seq<char>, slot: SampleSlotView) -> Seq<char> {
    root + "/"@ + slot.folder.spec_label()
}

/// The hit of a track that has a slot.
pub open spec fn hit_of(
    slots: Seq<SampleSlotView>,
    root: Seq<char>,
    duration_nanos: u64,
    track: usize,
) -> HitView
    recommends
        track < slots.len(),
{
    HitView {
        track,
        directory: slot_directory(root, slots[track as int]),
        name: slots[track as int].name,
        duration_nanos,
    }
}

/// The hits of a tick: one for each trigger of a track that has a slot, in
/// the order of the triggers. A trigger of a track without a slot gives none.
pub open spec fn spec_dispatch(
    slots: Seq<SampleSlotView>,
    root: Seq<char>,
    triggers: Seq<usize>,
    duration_nanos: u64,
) -> Seq<HitView> {
    triggers.filter(|track: usize| track < slots.len()).map_values(
        |track: usize| hit_of(slots, root, duration_nanos, track),
    )
}

/// Taking one more trigger adds its hit where the track has a slot and
/// nothing where it has none.
pub proof fn lemma_dispatch_step(
    slots: Seq<SampleSlotView>,
    root: Seq<char>,
    triggers: Seq<usize>,
    duration_nanos: u64,
    count: int,
)
    requires
        0 <= count < triggers.len(),
    ensures
        spec_dispatch(slots, root, triggers.take(count + 1), duration_nanos) == if triggers[count]
            < slots.len() {
            spec_dispatch(slots, root, triggers.take(count), duration_nanos).push(
                hit_of(slots, root, duration_nanos, triggers[count]),
            )
        } else {
            spec_dispatch(slots, root, triggers.take(count), duration_nanos)
        },
{
    reveal(Seq::filter);
    let longer = triggers.take(count + 1);
    assert(longer.drop_last() =~= triggers.take(count));
    assert(longer.last() == triggers[count]);
    let kept = triggers.take(count).filter(|track: usize| track < slots.len());
    if triggers[count] < slots.len() {
        assert(kept.push(triggers[count]).map_values(
            |track: usize| hit_of(slots, root, duration_nanos, track),
        ) =~= kept.map_values(|track: usize| hit_of(slots, root, duration_nanos, track)).push(
            hit_of(slots, root, duration_nanos, triggers[count]),
        ));
    }
}

/// Every hit is that of a triggered track with a slot, and every triggered
/// track with a slot has its hit; there are no more hits than triggers.
pub proof fn lemma_dispatch_hits_the_slots(
    slots: Seq<SampleSlotView>,
    root: Seq<char>,
    triggers: Seq<usize>,
    duration_nanos: u64,
)
    ensures
        forall|i: int|
            0 <= i < spec_dispatch(slots, root, triggers, duration_nanos).len() ==> {
                let hit = #[trigger] spec_dispatch(slots, root, triggers, duration_nanos)[i];
                &&& hit.track < slots.len()
                &&& triggers.contains(hit.track)
                &&& hit == hit_of(slots, root, duration_nanos, hit.track)
            },
        forall|j: int|
            0 <= j < triggers.len() && (#[trigger] triggers[j]) < slots.len() ==> spec_dispatch(
                slots,
                root,
                triggers,
                duration_nanos,
            ).contains(hit_of(slots, root, duration_nanos, triggers[j])),
        spec_dispatch(slots, root, triggers, duration_nanos).len() <= triggers.len(),
    decreases triggers.len(),
{
    if triggers.len() == 0 {
        reveal(Seq::filter);
    } else {
        let count = triggers.len() - 1;
        let shorter = triggers.take(count);
        assert(triggers.take(count + 1) =~= triggers);
        lemma_dispatch_step(slots, root, triggers, duration_nanos, count);
        lemma_dispatch_hits_the_slots(slots, root, shorter, duration_nanos);
        let before = spec_dispatch(slots, root, shorter, duration_nanos);
        let now = spec_dispatch(slots, root, triggers, duration_nanos);
        assert forall|i: int| 0 <= i < now.len() implies {
            let hit = #[trigger] now[i];
            &&& hit.track < slots.len()
            &&& triggers.contains(hit.track)
            &&& hit == hit_of(slots, root, duration_nanos, hit.track)
        } by {
            if i < before.len() {
                assert(now[i] == before[i]);
                let at = choose|at: int| 0 <= at < shorter.len() && shorter[at] == before[i].track;
                assert(triggers[at] == before[i].track);
            } else {
                assert(triggers[count] == now[i].track);
            }
        }
        assert forall|j: int|
            0 <= j < triggers.len() && (#[trigger] triggers[j]) < slots.len() implies now.contains(
            hit_of(slots, root, duration_nanos, triggers[j]),
        ) by {
            let wanted = hit_of(slots, root, duration_nanos, triggers[j]);
            if j < count {
                assert(shorter[j] == triggers[j]);
                let i = choose|i: int| 0 <= i < before.len() && before[i] == wanted;
                assert(now[i] == wanted);
            } else {
                assert(now[now.len() - 1] == wanted);
            }
        }
    }
}

/// The file that a track plays, as directory and name; `None` for a track
/// without a slot.
pub fn resolve_sample(slots: &Vec<SampleSlot>, root: &str, track: usize) -> (file: Option<(String, String)>)
    ensures
        file is Some == (track < slots.len()),
        file matches Some(found) ==> {
            &&& found.0@ == slot_directory(root@, slots[track as int]@)
            &&& found.1@ == slots[track as int].name@
        },
{
    if track < slots.len() {
        let directory = slots[track].folder.directory(root);
        let name = slots[track].name.clone();
        Some((directory, name))
    } else {
        None
    }
}

/// The hits of one tick, one for each triggered track that has a slot, in
/// track order.
pub fn dispatch(slots: &Vec<SampleSlot>, root: &str, tick: &Tick) -> (hits: Vec<Hit>)
    ensures
        hits_view(hits@) == spec_dispatch(
            slots_view(slots@),
            root@,
            tick.triggers@,
            tick.duration_nanos,
        ),
{
    let mut hits: Vec<Hit> = Vec::new();
    let mut i: usize = 0;
    let ghost table = slots_view(slots@);
    let ghost triggers = tick.triggers@;
    proof {
        reveal(Seq::filter);
        assert(hits_view(hits@) =~= spec_dispatch(
            table,
            root@,
            triggers.take(0),
            tick.duration_nanos,
        ));
    }
    while i < tick.triggers.len()
        invariant
            i <= tick.triggers.len(),
            table == slots_view(slots@),
            triggers == tick.triggers@,
            hits_view(hits@) == spec_dispatch(
                table,
                root@,
                triggers.take(i as int),
                tick.duration_nanos,
            ),
        decreases tick.triggers.len() - i,
    {
        let ghost before = hits_view(hits@);
        let track: usize = tick.triggers[i];
        proof {
            lemma_dispatch_step(table, root@, triggers, tick.duration_nanos, i as int);
        }
        match resolve_sample(slots, root, track) {
            Some((directory, name)) => {
                let hit = Hit { track, directory, name, duration_nanos: tick.duration_nanos };
                hits.push(hit);
                proof {
                    assert(hits_view(hits@) =~= before.push(hit@));
                    assert(hit@ == hit_of(table, root@, tick.duration_nanos, track));
                }
            },
            None => {},
        }
        i += 1;
    }
    proof {
        assert(triggers.take(tick.triggers.len() as int) =~= triggers);
    }
    hits
}

} // verus!
