//! The canvas handoff between the growth engine and a display consumer, in
//! its turn-taking form: a `Turn` and a single slot, guarded together.

use vstd::prelude::*;
use crate::common::{Color, Turn};
use crate::plane::{Plane, PlaneView};

verus! {

/// A published canvas and the number of the frame that produced it.
pub struct Snapshot {
    pub frame: u64,
    pub canvas: Plane<Color>,
}

pub struct SnapshotView {
    pub frame: nat,
    pub canvas: PlaneView<Color>,
}

impl View for Snapshot {
    type V = SnapshotView;

    open spec fn view(&self) -> SnapshotView {
        SnapshotView { frame: self.frame as nat, canvas: self.canvas@ }
    }
}

/// What the slot holds: whose turn it is and the latest published snapshot.
pub struct HandoffModel {
    pub turn: Turn,
    pub latest: SnapshotView,
}

/// The producer's move: it publishes only on its turn, and then hands the
/// turn over; off its turn the snapshot is dropped.
pub open spec fn publish_model(h: HandoffModel, s: SnapshotView) -> HandoffModel {
    if h.turn == Turn::WantData {
        HandoffModel { turn: Turn::WantDisplay, latest: s }
    } else {
        h
    }
}

/// The consumer's move: on its turn it receives the latest snapshot and hands
/// the turn back.
pub open spec fn consume_model(h: HandoffModel) -> (HandoffModel, Option<SnapshotView>) {
    if h.turn == Turn::WantDisplay {
        (HandoffModel { turn: Turn::WantData, ..h }, Some(h.latest))
    } else {
        (h, None)
    }
}

/// The single-slot mailbox between the growth engine and a display consumer.
/// Held behind one mutex, each call is one critical section, so a consumer
/// never reads a canvas while the producer writes it.
pub struct HandoffSlot {
    turn: Turn,
    latest: Snapshot,
}

impl View for HandoffSlot {
    type V = HandoffModel;

    closed spec fn view(&self) -> HandoffModel {
        HandoffModel { turn: self.turn, latest: self.latest@ }
    }
}

impl HandoffSlot {
    /// A slot holding `initial` as frame 0, with the turn at the display.
    pub fn new(initial: Plane<Color>) -> (h: HandoffSlot)
        ensures
            h@ == (HandoffModel {
                turn: Turn::WantDisplay,
                latest: SnapshotView { frame: 0, canvas: initial@ },
            }),
    {
        HandoffSlot { turn: Turn::WantDisplay, latest: Snapshot { frame: 0, canvas: initial } }
    }

    pub fn turn(&self) -> (t: Turn)
        ensures
            t == self@.turn,
    {
        self.turn
    }

    /// The latest published canvas, which a restarted engine starts from.
    pub fn latest(&self) -> (c: &Plane<Color>)
        ensures
            c@ == self@.latest.canvas,
    {
        &self.latest.canvas
    }

    /// Publishes a copy of `canvas` as frame `frame` when it is the producer's
    /// turn; returns whether it did. Never waits for the consumer.
    pub fn publish(&mut self, frame: u64, canvas: &Plane<Color>) -> (done: bool)
        ensures
            done == (old(self)@.turn == Turn::WantData),
            final(self)@ == publish_model(
                old(self)@,
                SnapshotView { frame: frame as nat, canvas: canvas@ },
            ),
    {
        if self.turn == Turn::WantData {
            self.latest = Snapshot { frame, canvas: canvas.duplicate() };
            self.turn = Turn::WantDisplay;
            true
        } else {
            false
        }
    }

    /// Takes a copy of the latest snapshot when it is the consumer's turn.
    pub fn consume(&mut self) -> (r: Option<Snapshot>)
        ensures
            consume_model(old(self)@) == (final(self)@, match r {
                Some(s) => Some(s@),
                None => None::<SnapshotView>,
            }),
    {
        if self.turn == Turn::WantDisplay {
            let s = Snapshot { frame: self.latest.frame, canvas: self.latest.canvas.duplicate() };
            self.turn = Turn::WantData;
            Some(s)
        } else {
            None
        }
    }
}

/// A move at the slot, for reasoning about runs of the protocol.
pub enum HandoffEvent {
    Publish(SnapshotView),
    Consume,
}

/// What the consumer receives over a run of moves, in order.
pub open spec fn deliveries(h: HandoffModel, evs: Seq<HandoffEvent>) -> Seq<SnapshotView>
    decreases evs.len(),
{
    if evs.len() == 0 {
        Seq::empty()
    } else {
        match evs[0] {
            HandoffEvent::Publish(s) => deliveries(publish_model(h, s), evs.drop_first()),
            HandoffEvent::Consume => {
                let (h2, d) = consume_model(h);
                match d {
                    Some(s) => seq![s] + deliveries(h2, evs.drop_first()),
                    None => deliveries(h2, evs.drop_first()),
                }
            },
        }
    }
}

/// The producer numbers its snapshots upwards, above the one in the slot.
pub open spec fn publishes_ascend(h: HandoffModel, evs: Seq<HandoffEvent>) -> bool {
    &&& forall|i: int|
        0 <= i < evs.len() ==> (#[trigger] evs[i] matches HandoffEvent::Publish(s) ==> s.frame
            > h.latest.frame)
    &&& forall|i: int, j: int|
        0 <= i < j < evs.len() ==> (#[trigger] evs[i] matches HandoffEvent::Publish(s) ==> (
        #[trigger] evs[j] matches HandoffEvent::Publish(t) ==> s.frame < t.frame))
}

/// `s` is the snapshot the slot started with, or one the producer published.
pub open spec fn produced(h: HandoffModel, evs: Seq<HandoffEvent>, s: SnapshotView) -> bool {
    s == h.latest || exists|i: int| 0 <= i < evs.len() && #[trigger] evs[i] == HandoffEvent::Publish(s)
}

proof fn lemma_deliveries(h: HandoffModel, evs: Seq<HandoffEvent>)
    requires
        publishes_ascend(h, evs),
    ensures
        forall|k: int|
            0 <= k < deliveries(h, evs).len() ==> #[trigger] deliveries(h, evs)[k].frame
                >= h.latest.frame,
        h.turn == Turn::WantData ==> forall|k: int|
            0 <= k < deliveries(h, evs).len() ==> #[trigger] deliveries(h, evs)[k].frame
                > h.latest.frame,
        forall|k: int, l: int|
            0 <= k < l < deliveries(h, evs).len() ==> #[trigger] deliveries(h, evs)[k].frame
                < #[trigger] deliveries(h, evs)[l].frame,
    decreases evs.len(),
{
    if evs.len() == 0 {
        return;
    }
    let rest = evs.drop_first();
    assert forall|i: int| 0 <= i < rest.len() implies #[trigger] rest[i] == evs[i + 1] by {}
    let d = deliveries(h, evs);
    match evs[0] {
        HandoffEvent::Publish(s) => {
            let h2 = publish_model(h, s);
            assert(s.frame > h.latest.frame) by {
                assert(evs[0] matches HandoffEvent::Publish(s));
            }
            assert forall|i: int| 0 <= i < rest.len() implies (#[trigger] rest[i] matches HandoffEvent::Publish(t) ==> t.frame > h2.latest.frame) by {
                assert(rest[i] == evs[i + 1]);
                if h.turn == Turn::WantData {
                    assert(evs[0] matches HandoffEvent::Publish(s));
                }
            }
            assert forall|i: int, j: int| 0 <= i < j < rest.len() implies (#[trigger] rest[i] matches HandoffEvent::Publish(a) ==> (#[trigger] rest[j] matches HandoffEvent::Publish(b) ==> a.frame < b.frame)) by {
                assert(rest[i] == evs[i + 1]);
                assert(rest[j] == evs[j + 1]);
            }
            lemma_deliveries(h2, rest);
            assert(d == deliveries(h2, rest));
        },
        HandoffEvent::Consume => {
            let (h2, o) = consume_model(h);
            assert(h2.latest == h.latest);
            lemma_deliveries(h2, rest);
            let dr = deliveries(h2, rest);
            match o {
                Some(s) => {
                    assert(d == seq![s] + dr);
                    assert forall|k: int| 0 < k < d.len() implies #[trigger] d[k] == dr[k - 1] by {}
                },
                None => {
                    assert(d == dr);
                },
            }
        },
    }
}

/// A consumer only ever receives a whole snapshot, exactly as the producer
/// published it (or the one the slot started with): never a canvas that
/// mixes two frames.
pub proof fn lemma_handoff_delivers_whole_snapshots(h: HandoffModel, evs: Seq<HandoffEvent>)
    ensures
        forall|k: int|
            0 <= k < deliveries(h, evs).len() ==> produced(h, evs, #[trigger] deliveries(h, evs)[k]),
    decreases evs.len(),
{
    if evs.len() == 0 {
        return;
    }
    let rest = evs.drop_first();
    let d = deliveries(h, evs);
    let (h2, o) = match evs[0] {
        HandoffEvent::Publish(s) => (publish_model(h, s), None::<SnapshotView>),
        HandoffEvent::Consume => consume_model(h),
    };
    lemma_handoff_delivers_whole_snapshots(h2, rest);
    let dr = deliveries(h2, rest);
    assert forall|k: int| 0 <= k < dr.len() implies produced(h, evs, #[trigger] dr[k]) by {
        assert(produced(h2, rest, dr[k]));
        if dr[k] == h2.latest {
            if h2.latest != h.latest {
                assert(evs[0] == HandoffEvent::Publish(dr[k]));
            }
        } else {
            let i = choose|i: int| 0 <= i < rest.len() && #[trigger] rest[i] == HandoffEvent::Publish(dr[k]);
            assert(evs[i + 1] == HandoffEvent::Publish(dr[k]));
        }
    }
    match o {
        Some(s) => {
            assert(d == seq![s] + dr);
            assert forall|k: int| 0 < k < d.len() implies #[trigger] d[k] == dr[k - 1] by {}
        },
        None => {
            assert(d == dr);
        },
    }
}

/// The snapshots a consumer receives come in strictly increasing frame order:
/// when the producer outpaces the consumer, frames are dropped, never
/// delivered twice or out of order.
pub proof fn lemma_handoff_keeps_order(h: HandoffModel, evs: Seq<HandoffEvent>)
    requires
        publishes_ascend(h, evs),
    ensures
        forall|k: int, l: int|
            0 <= k < l < deliveries(h, evs).len() ==> #[trigger] deliveries(h, evs)[k].frame
                < #[trigger] deliveries(h, evs)[l].frame,
{
    lemma_deliveries(h, evs);
}

} // verus!
