//! The protocol decoder and slot tracker.
//!
//! A per-device state machine translates raw records into discrete events.
//! Slot-selector records choose the current slot, position and tracking-id
//! records buffer changes on it, and a report-boundary record flushes every
//! changed slot as exactly one touch event. Key records map directly to key
//! events. A record that selects a slot index outside the fixed capacity is
//! dropped and counted, never fatal.

use vstd::prelude::*;
use crate::event::{Event, TouchKind};

verus! {

/// Report-boundary records carry this kind.
pub const EV_SYN: u16 = 0;

/// Key records carry this kind.
pub const EV_KEY: u16 = 1;

/// Absolute-axis records (slot selector, position, tracking id) carry this kind.
pub const EV_ABS: u16 = 3;

/// The report-boundary code under `EV_SYN`.
pub const SYN_REPORT: u16 = 0;

/// The multi-touch slot-selector code under `EV_ABS`.
pub const ABS_MT_SLOT: u16 = 47;

/// The horizontal-position code under `EV_ABS`.
pub const ABS_MT_POSITION_X: u16 = 53;

/// The vertical-position code under `EV_ABS`.
pub const ABS_MT_POSITION_Y: u16 = 54;

/// The tracking-id code under `EV_ABS`; value `-1` releases the contact.
pub const ABS_MT_TRACKING_ID: u16 = 57;

/// The fixed number of concurrently tracked touch slots.
pub const SLOT_COUNT: usize = 10;

/// The touch event owed to a slot at the next report boundary.
#[derive(Clone, Copy, Debug, PartialEq, Eq, Structural)]
pub enum Pending {
    /// Nothing changed since the last boundary; the slot emits nothing.
    Quiet,
    /// The slot turned active; it emits a `Begin`.
    Begin,
    /// The slot stayed active and its position changed; it emits a `Move`.
    Move,
    /// The slot turned inactive; it emits an `End`.
    End,
}

/// The tracked state of one touch slot.
#[derive(Clone, Copy, Debug, PartialEq, Eq, Structural)]
pub struct Slot {
    /// Whether a contact currently occupies the slot.
    pub active: bool,
    /// Buffered horizontal position; meaningful only while tracked.
    pub x: i32,
    /// Buffered vertical position; meaningful only while tracked.
    pub y: i32,
    /// The event owed at the next report boundary.
    pub pending: Pending,
}

/// The mathematical state of one decoder.
#[verifier::ext_equal]
pub ghost struct DecoderModel {
    /// The fixed set of slots, indexed by slot index.
    pub slots: Seq<Slot>,
    /// The slot that subsequent records in the current report address.
    pub current: int,
    /// How many malformed records have been dropped.
    pub dropped: u64,
}

/// A slot before any contact has touched it.
pub open spec fn initial_slot() -> Slot {
    Slot { active: false, x: 0, y: 0, pending: Pending::Quiet }
}

/// The pending mark never contradicts the activity it reports:
/// `Begin` and `Move` are owed only by active slots, `End` only by
/// slots already marked inactive.
pub open spec fn slot_inv(s: Slot) -> bool {
    &&& s.pending is Begin ==> s.active
    &&& s.pending is Move ==> s.active
    &&& s.pending is End ==> !s.active
}

impl DecoderModel {
    /// The decoder holds exactly `SLOT_COUNT` slots and addresses one of them.
    pub open spec fn wf(self) -> bool {
        &&& self.slots.len() == SLOT_COUNT
        &&& 0 <= self.current < SLOT_COUNT
    }

    /// Well-formed, and every slot satisfies `slot_inv`.
    pub open spec fn inv(self) -> bool {
        &&& self.wf()
        &&& forall|i: int| 0 <= i < self.slots.len() ==> slot_inv(#[trigger] self.slots[i])
    }
}

/// One more dropped record, saturating at the counter's capacity.
pub open spec fn count_dropped(d: u64) -> u64 {
    if d == u64::MAX {
        d
    } else {
        (d + 1) as u64
    }
}

/// A slot-selector record: an in-range value becomes the current slot;
/// an out-of-range value is dropped and counted, touching no slot state.
pub open spec fn select_slot(m: DecoderModel, value: i32) -> DecoderModel {
    if 0 <= value < SLOT_COUNT {
        DecoderModel { current: value as int, ..m }
    } else {
        DecoderModel { dropped: count_dropped(m.dropped), ..m }
    }
}

/// A horizontal-position record buffers the value; an active slot that owed
/// nothing now owes a `Move`.
pub open spec fn position_x(s: Slot, value: i32) -> Slot {
    Slot {
        x: value,
        pending: if s.active && s.pending is Quiet {
            Pending::Move
        } else {
            s.pending
        },
        ..s
    }
}

/// A vertical-position record buffers the value; an active slot that owed
/// nothing now owes a `Move`.
pub open spec fn position_y(s: Slot, value: i32) -> Slot {
    Slot {
        y: value,
        pending: if s.active && s.pending is Quiet {
            Pending::Move
        } else {
            s.pending
        },
        ..s
    }
}

/// A tracking-id record: `-1` releases an active contact, which then owes an
/// `End` — unless the contact began inside the same report, in which case the
/// two cancel and the slot emits nothing. Any other id on an inactive slot
/// starts a contact, which owes a `Begin`; on an active slot it changes nothing.
pub open spec fn track(s: Slot, value: i32) -> Slot {
    if value == -1 {
        if s.active {
            if s.pending is Begin {
                Slot { active: false, pending: Pending::Quiet, ..s }
            } else {
                Slot { active: false, pending: Pending::End, ..s }
            }
        } else {
            s
        }
    } else {
        if !s.active {
            Slot { active: true, pending: Pending::Begin, ..s }
        } else {
            s
        }
    }
}

/// The one touch event a non-quiet slot contributes at a report boundary.
pub open spec fn owed_event(s: Slot, idx: u16) -> Event {
    Event::Touch {
        slot: idx,
        kind: match s.pending {
            Pending::Begin => TouchKind::Begin,
            Pending::Move => TouchKind::Move,
            _ => TouchKind::End,
        },
        x: s.x,
        y: s.y,
    }
}

/// The events one slot contributes at a report boundary: nothing if quiet,
/// else exactly its owed event.
pub open spec fn slot_events(s: Slot, idx: u16) -> Seq<Event> {
    if s.pending is Quiet {
        seq![]
    } else {
        seq![owed_event(s, idx)]
    }
}

/// The events the first `n` slots contribute at a report boundary, in slot order.
pub open spec fn flush_events_upto(slots: Seq<Slot>, n: int) -> Seq<Event>
    decreases n,
{
    if n <= 0 {
        seq![]
    } else {
        flush_events_upto(slots, n - 1) + slot_events(slots[n - 1], (n - 1) as u16)
    }
}

/// The events a report boundary emits: one per slot that owes one, in slot order.
pub open spec fn flush_events(slots: Seq<Slot>) -> Seq<Event> {
    flush_events_upto(slots, slots.len() as int)
}

/// A slot after a report boundary: state kept, nothing owed any more.
pub open spec fn cleared(s: Slot) -> Slot {
    Slot { pending: Pending::Quiet, ..s }
}

/// The decoder's transition on one raw record: the state after the record
/// and the events the record emits.
pub open spec fn step(m: DecoderModel, kind: u16, code: u16, value: i32) -> (DecoderModel, Seq<
    Event,
>)
    recommends
        m.wf(),
{
    if kind == EV_ABS && code == ABS_MT_SLOT {
        (select_slot(m, value), seq![])
    } else if kind == EV_ABS && code == ABS_MT_POSITION_X {
        (
            DecoderModel {
                slots: m.slots.update(m.current, position_x(m.slots[m.current], value)),
                ..m
            },
            seq![],
        )
    } else if kind == EV_ABS && code == ABS_MT_POSITION_Y {
        (
            DecoderModel {
                slots: m.slots.update(m.current, position_y(m.slots[m.current], value)),
                ..m
            },
            seq![],
        )
    } else if kind == EV_ABS && code == ABS_MT_TRACKING_ID {
        (
            DecoderModel {
                slots: m.slots.update(m.current, track(m.slots[m.current], value)),
                ..m
            },
            seq![],
        )
    } else if kind == EV_SYN && code == SYN_REPORT {
        (
            DecoderModel { slots: m.slots.map_values(|s: Slot| cleared(s)), ..m },
            flush_events(m.slots),
        )
    } else if kind == EV_KEY {
        (m, seq![Event::Key { code, pressed: value != 0 }])
    } else {
        (m, seq![])
    }
}

/// Whether an event is a touch event for the given slot index.
pub open spec fn touch_for(e: Event, idx: u16) -> bool {
    e matches Event::Touch { slot, .. } && slot == idx
}

/// How many touch events for the given slot index a sequence holds.
pub open spec fn count_touches_for(evs: Seq<Event>, idx: u16) -> nat
    decreases evs.len(),
{
    if evs.len() == 0 {
        0
    } else {
        count_touches_for(evs.drop_last(), idx) + if touch_for(evs.last(), idx) {
            1nat
        } else {
            0nat
        }
    }
}

/// The decoder's state and accumulated events after a whole sequence of records.
pub open spec fn run(m: DecoderModel, recs: Seq<(u16, u16, i32)>) -> (DecoderModel, Seq<Event>)
    decreases recs.len(),
{
    if recs.len() == 0 {
        (m, seq![])
    } else {
        let first = step(m, recs[0].0, recs[0].1, recs[0].2);
        let rest = run(first.0, recs.drop_first());
        (rest.0, first.1 + rest.1)
    }
}

/// Whether a record buffers a position for the current slot.
pub open spec fn is_position_record(r: (u16, u16, i32)) -> bool {
    r.0 == EV_ABS && (r.1 == ABS_MT_POSITION_X || r.1 == ABS_MT_POSITION_Y)
}

/// The last horizontal position a record sequence reports, starting from `x0`.
pub open spec fn last_position_x(recs: Seq<(u16, u16, i32)>, x0: i32) -> i32
    decreases recs.len(),
{
    if recs.len() == 0 {
        x0
    } else {
        last_position_x(
            recs.drop_first(),
            if recs[0].0 == EV_ABS && recs[0].1 == ABS_MT_POSITION_X {
                recs[0].2
            } else {
                x0
            },
        )
    }
}

/// The last vertical position a record sequence reports, starting from `y0`.
pub open spec fn last_position_y(recs: Seq<(u16, u16, i32)>, y0: i32) -> i32
    decreases recs.len(),
{
    if recs.len() == 0 {
        y0
    } else {
        last_position_y(
            recs.drop_first(),
            if recs[0].0 == EV_ABS && recs[0].1 == ABS_MT_POSITION_Y {
                recs[0].2
            } else {
                y0
            },
        )
    }
}

/// A per-device protocol decoder: accumulates raw records into coherent,
/// discrete events and resets per report boundary.
pub struct Decoder {
    slots: Vec<Slot>,
    current: usize,
    dropped: u64,
}

impl View for Decoder {
    type V = DecoderModel;

    closed spec fn view(&self) -> DecoderModel {
        DecoderModel { slots: self.slots@, current: self.current as int, dropped: self.dropped }
    }
}

impl Decoder {
    /// Every decoder holds its fixed slots and addresses one of them.
    #[verifier::type_invariant]
    spec fn type_wf(self) -> bool {
        self@.wf()
    }

    /// A fresh decoder: every slot untouched, slot zero current, nothing dropped.
    pub fn new() -> (r: Decoder)
        ensures
            r@.inv(),
            r@.current == 0,
            r@.dropped == 0,
            forall|i: int| 0 <= i < SLOT_COUNT ==> #[trigger] r@.slots[i] == initial_slot(),
    {
        let mut slots: Vec<Slot> = Vec::new();
        let mut i: usize = 0;
        while i < SLOT_COUNT
            invariant
                i <= SLOT_COUNT,
                slots@.len() == i,
                forall|j: int| 0 <= j < i ==> #[trigger] slots@[j] == initial_slot(),
            decreases SLOT_COUNT - i,
        {
            slots.push(Slot { active: false, x: 0, y: 0, pending: Pending::Quiet });
            i += 1;
        }
        Decoder { slots, current: 0, dropped: 0 }
    }

    /// How many malformed records this decoder has dropped.
    pub fn dropped_records(&self) -> (r: u64)
        ensures
            r == self@.dropped,
    {
        self.dropped
    }

    /// Feeds one raw record to the decoder and returns the events it emits:
    /// the decoder takes exactly the step that `step` describes.
    pub fn feed(&mut self, kind: u16, code: u16, value: i32) -> (events: Vec<Event>)
        ensures
            old(self)@.wf(),
            final(self)@ == step(old(self)@, kind, code, value).0,
            events@ == step(old(self)@, kind, code, value).1,
            old(self)@.inv() ==> final(self)@.inv(),
    {
        proof {
            use_type_invariant(&*self);
        }
        let ghost m0 = self@;
        let mut events: Vec<Event> = Vec::new();
        if kind == EV_ABS && code == ABS_MT_SLOT {
            if 0 <= value && value < SLOT_COUNT as i32 {
                self.current = value as usize;
            } else {
                if self.dropped < u64::MAX {
                    self.dropped = self.dropped + 1;
                }
            }
            proof {
                assert(self@ =~= step(m0, kind, code, value).0);
            }
        } else if kind == EV_ABS && code == ABS_MT_POSITION_X {
            let s = self.slots[self.current];
            let p = if s.active && matches!(s.pending, Pending::Quiet) {
                Pending::Move
            } else {
                s.pending
            };
            self.slots[self.current] = Slot { x: value, pending: p, ..s };
            proof {
                assert(self@ =~= step(m0, kind, code, value).0);
            }
        } else if kind == EV_ABS && code == ABS_MT_POSITION_Y {
            let s = self.slots[self.current];
            let p = if s.active && matches!(s.pending, Pending::Quiet) {
                Pending::Move
            } else {
                s.pending
            };
            self.slots[self.current] = Slot { y: value, pending: p, ..s };
            proof {
                assert(self@ =~= step(m0, kind, code, value).0);
            }
        } else if kind == EV_ABS && code == ABS_MT_TRACKING_ID {
            let s = self.slots[self.current];
            self.slots[self.current] = Self::track_exec(s, value);
            proof {
                assert(self@ =~= step(m0, kind, code, value).0);
            }
        } else if kind == EV_SYN && code == SYN_REPORT {
            let mut i: usize = 0;
            while i < SLOT_COUNT
                invariant
                    m0.wf(),
                    i <= SLOT_COUNT,
                    self.slots@.len() == SLOT_COUNT,
                    self.current == m0.current,
                    self.dropped == m0.dropped,
                    forall|j: int| 0 <= j < i ==> #[trigger] self.slots@[j] == cleared(m0.slots[j]),
                    forall|j: int| i <= j < SLOT_COUNT ==> #[trigger] self.slots@[j] == m0.slots[j],
                    events@ == flush_events_upto(m0.slots, i as int),
                decreases SLOT_COUNT - i,
            {
                let s = self.slots[i];
                match s.pending {
                    Pending::Quiet => {},
                    Pending::Begin => {
                        events.push(
                            Event::Touch { slot: i as u16, kind: TouchKind::Begin, x: s.x, y: s.y },
                        );
                    },
                    Pending::Move => {
                        events.push(
                            Event::Touch { slot: i as u16, kind: TouchKind::Move, x: s.x, y: s.y },
                        );
                    },
                    Pending::End => {
                        events.push(
                            Event::Touch { slot: i as u16, kind: TouchKind::End, x: s.x, y: s.y },
                        );
                    },
                }
                self.slots[i] = Slot { pending: Pending::Quiet, ..s };
                i += 1;
            }
            proof {
                assert(self@.slots =~= m0.slots.map_values(|s: Slot| cleared(s)));
                assert(self@ =~= step(m0, kind, code, value).0);
            }
        } else if kind == EV_KEY {
            events.push(Event::Key { code, pressed: value != 0 });
        } else {
            proof {
                assert(self@ =~= step(m0, kind, code, value).0);
            }
        }
        proof {
            assert(events@ =~= step(m0, kind, code, value).1);
            if m0.inv() {
                lemma_step_preserves_inv(m0, kind, code, value);
            }
        }
        events
    }

    /// The tracking-id transition of one slot, exactly as `track` describes.
    fn track_exec(s: Slot, value: i32) -> (r: Slot)
        ensures
            r == track(s, value),
    {
        if value == -1 {
            if s.active {
                if matches!(s.pending, Pending::Begin) {
                    Slot { active: false, pending: Pending::Quiet, ..s }
                } else {
                    Slot { active: false, pending: Pending::End, ..s }
                }
            } else {
                s
            }
        } else {
            if !s.active {
                Slot { active: true, pending: Pending::Begin, ..s }
            } else {
                s
            }
        }
    }
}

/// A decoder step preserves well-formedness.
pub proof fn lemma_step_preserves_wf(m: DecoderModel, kind: u16, code: u16, value: i32)
    requires
        m.wf(),
    ensures
        step(m, kind, code, value).0.wf(),
{
}

/// Law: a decoder step preserves well-formedness and the slot invariant.
pub proof fn lemma_step_preserves_inv(m: DecoderModel, kind: u16, code: u16, value: i32)
    requires
        m.inv(),
    ensures
        step(m, kind, code, value).0.inv(),
{
    let m1 = step(m, kind, code, value).0;
    assert forall|i: int| 0 <= i < m1.slots.len() implies slot_inv(#[trigger] m1.slots[i]) by {
        if kind == EV_SYN && code == SYN_REPORT {
            assert(m1.slots[i] == cleared(m.slots[i]));
        } else {
            assert(slot_inv(m.slots[i]));
        }
    }
}

/// Law: discrete events come out of the decoder only at a report boundary
/// or from a key record; every other record only accumulates state.
pub proof fn lemma_events_only_at_boundary_or_key(m: DecoderModel, kind: u16, code: u16, value: i32)
    requires
        m.wf(),
        step(m, kind, code, value).1.len() > 0,
    ensures
        (kind == EV_SYN && code == SYN_REPORT) || kind == EV_KEY,
{
}

/// Law (malformed record resilience): a slot-selector record whose index lies
/// outside the fixed capacity is dropped and counted; it changes no slot's
/// state, leaves the current slot as it was, and emits nothing.
pub proof fn lemma_malformed_slot_dropped(m: DecoderModel, value: i32)
    requires
        m.wf(),
        !(0 <= value < SLOT_COUNT),
    ensures
        step(m, EV_ABS, ABS_MT_SLOT, value).0.slots == m.slots,
        step(m, EV_ABS, ABS_MT_SLOT, value).0.current == m.current,
        step(m, EV_ABS, ABS_MT_SLOT, value).0.dropped == count_dropped(m.dropped),
        step(m, EV_ABS, ABS_MT_SLOT, value).1.len() == 0,
{
}

/// Law (begin only from inactive): a slot comes to owe a `Begin` only through
/// a tracking-id record with a non-negative id that addresses it as the
/// current slot while it is inactive; the record leaves the slot active.
pub proof fn lemma_begin_needs_activation(
    m: DecoderModel,
    kind: u16,
    code: u16,
    value: i32,
    i: int,
)
    requires
        m.inv(),
        0 <= i < SLOT_COUNT,
        !(m.slots[i].pending is Begin),
        step(m, kind, code, value).0.slots[i].pending is Begin,
    ensures
        kind == EV_ABS && code == ABS_MT_TRACKING_ID,
        value != -1,
        m.current == i,
        !m.slots[i].active,
        step(m, kind, code, value).0.slots[i].active,
{
    if kind == EV_SYN && code == SYN_REPORT {
        assert(step(m, kind, code, value).0.slots[i] == cleared(m.slots[i]));
    }
}

/// Law (end only from release): a slot comes to owe an `End` only through a
/// tracking-id record with id `-1` that addresses it as the current slot
/// while it is active; the record leaves the slot inactive.
pub proof fn lemma_end_needs_release(m: DecoderModel, kind: u16, code: u16, value: i32, i: int)
    requires
        m.inv(),
        0 <= i < SLOT_COUNT,
        !(m.slots[i].pending is End),
        step(m, kind, code, value).0.slots[i].pending is End,
    ensures
        kind == EV_ABS && code == ABS_MT_TRACKING_ID,
        value == -1,
        m.current == i,
        m.slots[i].active,
        !step(m, kind, code, value).0.slots[i].active,
{
    if kind == EV_SYN && code == SYN_REPORT {
        assert(step(m, kind, code, value).0.slots[i] == cleared(m.slots[i]));
    }
}

proof fn lemma_count_touches_app(a: Seq<Event>, b: Seq<Event>, idx: u16)
    ensures
        count_touches_for(a + b, idx) == count_touches_for(a, idx) + count_touches_for(b, idx),
    decreases b.len(),
{
    if b.len() == 0 {
        assert(a + b =~= a);
    } else {
        lemma_count_touches_app(a, b.drop_last(), idx);
        assert((a + b).drop_last() =~= a + b.drop_last());
        assert((a + b).last() == b.last());
    }
}

/// Law (one event per slot): a report boundary emits exactly one touch event
/// for each slot that owes one, and none for a quiet slot; in particular no
/// two events of one boundary carry the same slot index.
pub proof fn lemma_flush_count(slots: Seq<Slot>, n: int, idx: u16)
    requires
        0 <= n <= slots.len(),
        slots.len() <= SLOT_COUNT,
    ensures
        count_touches_for(flush_events_upto(slots, n), idx) == (
        if (idx as int) < n && !(slots[idx as int].pending is Quiet) {
            1nat
        } else {
            0nat
        }),
    decreases n,
{
    if n > 0 {
        lemma_flush_count(slots, n - 1, idx);
        lemma_count_touches_app(
            flush_events_upto(slots, n - 1),
            slot_events(slots[n - 1], (n - 1) as u16),
            idx,
        );
        let s = slots[n - 1];
        let tail = slot_events(s, (n - 1) as u16);
        if s.pending is Quiet {
            assert(count_touches_for(tail, idx) == 0);
        } else {
            assert(tail =~= seq![owed_event(s, (n - 1) as u16)]);
            assert(tail.drop_last() =~= Seq::<Event>::empty());
            assert(count_touches_for(tail.drop_last(), idx) == 0);
            if (n - 1) as u16 == idx {
                assert(idx as int == n - 1);
                assert(count_touches_for(tail, idx) == 1);
            } else {
                assert(count_touches_for(tail, idx) == 0);
            }
        }
    }
}

/// Law: every event a report boundary emits is the owed event of a slot that
/// owed one; nothing else is ever emitted there.
pub proof fn lemma_flush_events_owed(slots: Seq<Slot>, n: int, k: int)
    requires
        0 <= n <= slots.len(),
        slots.len() <= SLOT_COUNT,
        0 <= k < flush_events_upto(slots, n).len(),
    ensures
        exists|i: int|
            0 <= i < n && !((#[trigger] slots[i]).pending is Quiet) && flush_events_upto(slots, n)[k]
                == owed_event(slots[i], i as u16),
    decreases n,
{
    if n > 0 {
        let pre = flush_events_upto(slots, n - 1);
        if k < pre.len() {
            lemma_flush_events_owed(slots, n - 1, k);
            let i = choose|i: int|
                0 <= i < n - 1 && !(slots[i].pending is Quiet) && pre[k] == owed_event(
                    slots[i],
                    i as u16,
                );
            assert(flush_events_upto(slots, n)[k] == pre[k]);
            assert(!(slots[i].pending is Quiet));
        } else {
            assert(flush_events_upto(slots, n)[k] == slot_events(slots[n - 1], (n - 1) as u16)[k
                - pre.len()]);
            assert(!(slots[n - 1].pending is Quiet));
            assert(flush_events_upto(slots, n)[k] == owed_event(slots[n - 1], (n - 1) as u16));
        }
    }
}

/// Law (slot exclusivity, event side): a `Begin` touch event comes out of a
/// report boundary only for a slot that owed a `Begin` — one whose contact
/// started since the boundary before, while the slot was inactive.
pub proof fn lemma_begin_event_needs_begin_pending(slots: Seq<Slot>, k: int)
    requires
        slots.len() <= SLOT_COUNT,
        forall|j: int| 0 <= j < slots.len() ==> slot_inv(#[trigger] slots[j]),
        0 <= k < flush_events(slots).len(),
        flush_events(slots)[k] matches Event::Touch { kind: TouchKind::Begin, .. },
    ensures
        exists|i: int|
            0 <= i < slots.len() && (#[trigger] slots[i]).pending is Begin && slots[i].active
                && flush_events(slots)[k] == owed_event(slots[i], i as u16),
{
    lemma_flush_events_owed(slots, slots.len() as int, k);
    let i = choose|i: int|
        0 <= i < slots.len() && !(slots[i].pending is Quiet) && flush_events(slots)[k]
            == owed_event(slots[i], i as u16);
    assert(slots[i].pending is Begin && slots[i].active && flush_events(slots)[k] == owed_event(
        slots[i],
        i as u16,
    ));
}

proof fn lemma_count_at_least_one(evs: Seq<Event>, idx: u16, k: int)
    requires
        0 <= k < evs.len(),
        touch_for(evs[k], idx),
    ensures
        count_touches_for(evs, idx) >= 1,
    decreases evs.len(),
{
    if k < evs.len() - 1 {
        assert(evs.drop_last()[k] == evs[k]);
        lemma_count_at_least_one(evs.drop_last(), idx, k);
    }
}

proof fn lemma_count_at_least_two(evs: Seq<Event>, idx: u16, k1: int, k2: int)
    requires
        0 <= k1 < k2 < evs.len(),
        touch_for(evs[k1], idx),
        touch_for(evs[k2], idx),
    ensures
        count_touches_for(evs, idx) >= 2,
    decreases evs.len(),
{
    if k2 == evs.len() - 1 {
        assert(evs.drop_last()[k1] == evs[k1]);
        lemma_count_at_least_one(evs.drop_last(), idx, k1);
    } else {
        assert(evs.drop_last()[k1] == evs[k1]);
        assert(evs.drop_last()[k2] == evs[k2]);
        lemma_count_at_least_two(evs.drop_last(), idx, k1, k2);
    }
}

/// Law (slot exclusivity): one report boundary never emits two touch events
/// that carry the same slot index.
pub proof fn lemma_flush_unique_slots(slots: Seq<Slot>, idx: u16, k1: int, k2: int)
    requires
        slots.len() <= SLOT_COUNT,
        0 <= k1 < flush_events(slots).len(),
        0 <= k2 < flush_events(slots).len(),
        touch_for(flush_events(slots)[k1], idx),
        touch_for(flush_events(slots)[k2], idx),
    ensures
        k1 == k2,
{
    lemma_flush_count(slots, slots.len() as int, idx);
    if k1 < k2 {
        lemma_count_at_least_two(flush_events(slots), idx, k1, k2);
    } else if k2 < k1 {
        lemma_count_at_least_two(flush_events(slots), idx, k2, k1);
    }
}

/// A slot that owes an event has it emitted at the report boundary.
pub proof fn lemma_flush_contains_owed(slots: Seq<Slot>, n: int, i: int)
    requires
        0 <= i < n <= slots.len(),
        slots.len() <= SLOT_COUNT,
        !(slots[i].pending is Quiet),
    ensures
        flush_events_upto(slots, n).contains(owed_event(slots[i], i as u16)),
    decreases n,
{
    let pre = flush_events_upto(slots, n - 1);
    let tail = slot_events(slots[n - 1], (n - 1) as u16);
    if i == n - 1 {
        assert(flush_events_upto(slots, n)[pre.len() as int] == owed_event(slots[i], i as u16));
    } else {
        lemma_flush_contains_owed(slots, n - 1, i);
        let k = choose|k: int| 0 <= k < pre.len() && pre[k] == owed_event(slots[i], i as u16);
        assert(flush_events_upto(slots, n)[k] == owed_event(slots[i], i as u16));
    }
}

/// A report boundary over slots of which at most one owes an event emits
/// exactly that slot's owed event, or nothing if even it is quiet.
pub proof fn lemma_flush_single(slots: Seq<Slot>, n: int, i: int)
    requires
        0 <= i < slots.len(),
        0 <= n <= slots.len(),
        slots.len() <= SLOT_COUNT,
        forall|j: int| 0 <= j < slots.len() && j != i ==> (#[trigger] slots[j]).pending is Quiet,
    ensures
        flush_events_upto(slots, n) =~= (
        if i < n && !(slots[i].pending is Quiet) {
            seq![owed_event(slots[i], i as u16)]
        } else {
            Seq::<Event>::empty()
        }),
    decreases n,
{
    if n > 0 {
        lemma_flush_single(slots, n - 1, i);
    }
}

/// What a run of position records for the current tracked slot does: no
/// events come out, no other slot changes, and the slot ends up owing a
/// `Move` holding the last position each axis reported.
pub proof fn lemma_position_run(m: DecoderModel, recs: Seq<(u16, u16, i32)>)
    requires
        m.inv(),
        m.slots[m.current].active,
        m.slots[m.current].pending is Quiet || m.slots[m.current].pending is Move,
        forall|k: int| 0 <= k < recs.len() ==> is_position_record(#[trigger] recs[k]),
    ensures
        ({
            let r = run(m, recs);
            &&& r.1 =~= Seq::<Event>::empty()
            &&& r.0.current == m.current
            &&& r.0.dropped == m.dropped
            &&& r.0.slots.len() == m.slots.len()
            &&& (forall|j: int|
                0 <= j < m.slots.len() && j != m.current ==> r.0.slots[j] == #[trigger] m.slots[j])
            &&& r.0.slots[m.current].active
            &&& (recs.len() == 0 ==> r.0.slots[m.current] == m.slots[m.current])
            &&& (recs.len() > 0 ==> r.0.slots[m.current].pending is Move)
            &&& r.0.slots[m.current].x == last_position_x(recs, m.slots[m.current].x)
            &&& r.0.slots[m.current].y == last_position_y(recs, m.slots[m.current].y)
        }),
    decreases recs.len(),
{
    if recs.len() > 0 {
        assert(is_position_record(recs[0]));
        let m1 = step(m, recs[0].0, recs[0].1, recs[0].2).0;
        assert(step(m, recs[0].0, recs[0].1, recs[0].2).1 =~= Seq::<Event>::empty());
        lemma_step_preserves_inv(m, recs[0].0, recs[0].1, recs[0].2);
        assert forall|k: int| 0 <= k < recs.drop_first().len() implies is_position_record(
            #[trigger] recs.drop_first()[k],
        ) by {
            assert(recs.drop_first()[k] == recs[k + 1]);
        }
        lemma_position_run(m1, recs.drop_first());
        let r = run(m, recs);
        assert(r.1 =~= Seq::<Event>::empty() + run(m1, recs.drop_first()).1);
        assert forall|j: int|
            0 <= j < m.slots.len() && j != m.current implies r.0.slots[j] == #[trigger] m.slots[j] by {
            assert(m1.slots[j] == m.slots[j]);
            assert(r.0.slots[j] == m1.slots[j]);
        }
        assert(m1.slots[m.current] == position_x(m.slots[m.current], recs[0].2) || m1.slots[m.current]
            == position_y(m.slots[m.current], recs[0].2));
    }
}

/// Law (report-boundary batching): from a flushed state whose current slot is
/// tracked, a run of position records followed by one report boundary emits
/// exactly one event — a `Move` for that slot carrying the last position seen
/// on each axis — not one event per record.
pub proof fn lemma_report_batching(m: DecoderModel, recs: Seq<(u16, u16, i32)>)
    requires
        m.inv(),
        forall|j: int| 0 <= j < m.slots.len() ==> (#[trigger] m.slots[j]).pending is Quiet,
        m.slots[m.current].active,
        recs.len() > 0,
        forall|k: int| 0 <= k < recs.len() ==> is_position_record(#[trigger] recs[k]),
    ensures
        ({
            let r = run(m, recs);
            &&& r.1 =~= Seq::<Event>::empty()
            &&& step(r.0, EV_SYN, SYN_REPORT, 0).1 =~= seq![
                Event::Touch {
                    slot: m.current as u16,
                    kind: TouchKind::Move,
                    x: last_position_x(recs, m.slots[m.current].x),
                    y: last_position_y(recs, m.slots[m.current].y),
                },
            ]
        }),
{
    lemma_position_run(m, recs);
    let r = run(m, recs);
    assert forall|j: int|
        0 <= j < r.0.slots.len() && j != m.current implies (
    #[trigger] r.0.slots[j]).pending is Quiet by {
        assert(r.0.slots[j] == m.slots[j]);
    }
    lemma_flush_single(r.0.slots, r.0.slots.len() as int, m.current);
}

/// Law (tracking-id lifecycle, release): a tracking id of `-1` for an active
/// contact that did not begin inside the current report makes its slot owe an
/// `End`, and the next report boundary emits exactly one touch event for that
/// slot: an `End` carrying the buffered position.
pub proof fn lemma_release_then_flush(m: DecoderModel)
    requires
        m.inv(),
        m.slots[m.current].active,
        !(m.slots[m.current].pending is Begin),
    ensures
        ({
            let m1 = step(m, EV_ABS, ABS_MT_TRACKING_ID, -1i32).0;
            let evs = step(m1, EV_SYN, SYN_REPORT, 0).1;
            &&& m1.slots[m.current].pending is End
            &&& !m1.slots[m.current].active
            &&& count_touches_for(evs, m.current as u16) == 1
            &&& evs.contains(
                Event::Touch {
                    slot: m.current as u16,
                    kind: TouchKind::End,
                    x: m.slots[m.current].x,
                    y: m.slots[m.current].y,
                },
            )
        }),
{
    let m1 = step(m, EV_ABS, ABS_MT_TRACKING_ID, -1i32).0;
    lemma_flush_count(m1.slots, m1.slots.len() as int, m.current as u16);
    lemma_flush_contains_owed(m1.slots, m1.slots.len() as int, m.current);
}

/// Law (tracking-id lifecycle, begin): a non-negative tracking id for the
/// current slot while no contact occupies it makes the slot owe a `Begin`,
/// and the next report boundary emits exactly one touch event for that slot:
/// a `Begin` carrying the buffered position.
pub proof fn lemma_begin_then_flush(m: DecoderModel, value: i32)
    requires
        m.inv(),
        !m.slots[m.current].active,
        value != -1,
    ensures
        ({
            let m1 = step(m, EV_ABS, ABS_MT_TRACKING_ID, value).0;
            let evs = step(m1, EV_SYN, SYN_REPORT, 0).1;
            &&& m1.slots[m.current].pending is Begin
            &&& m1.slots[m.current].active
            &&& count_touches_for(evs, m.current as u16) == 1
            &&& evs.contains(
                Event::Touch {
                    slot: m.current as u16,
                    kind: TouchKind::Begin,
                    x: m.slots[m.current].x,
                    y: m.slots[m.current].y,
                },
            )
        }),
{
    let m1 = step(m, EV_ABS, ABS_MT_TRACKING_ID, value).0;
    lemma_flush_count(m1.slots, m1.slots.len() as int, m.current as u16);
    lemma_flush_contains_owed(m1.slots, m1.slots.len() as int, m.current);
}

} // verus!
