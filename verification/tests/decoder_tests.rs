use weekit::decoder::{
    Decoder, ABS_MT_POSITION_X, ABS_MT_POSITION_Y, ABS_MT_SLOT, ABS_MT_TRACKING_ID, EV_ABS,
    EV_KEY, EV_SYN, SYN_REPORT,
};
use weekit::event::{Event, TouchKind};

#[test]
fn touch_begin_move_end_scenario() {
    let mut d = Decoder::new();

    // slot=2, tracking_id=5, x=10, y=20, report boundary
    assert_eq!(d.feed(EV_ABS, ABS_MT_SLOT, 2), vec![]);
    assert_eq!(d.feed(EV_ABS, ABS_MT_TRACKING_ID, 5), vec![]);
    assert_eq!(d.feed(EV_ABS, ABS_MT_POSITION_X, 10), vec![]);
    assert_eq!(d.feed(EV_ABS, ABS_MT_POSITION_Y, 20), vec![]);
    assert_eq!(
        d.feed(EV_SYN, SYN_REPORT, 0),
        vec![Event::Touch { slot: 2, kind: TouchKind::Begin, x: 10, y: 20 }]
    );

    // x=15, report boundary
    assert_eq!(d.feed(EV_ABS, ABS_MT_POSITION_X, 15), vec![]);
    assert_eq!(
        d.feed(EV_SYN, SYN_REPORT, 0),
        vec![Event::Touch { slot: 2, kind: TouchKind::Move, x: 15, y: 20 }]
    );

    // tracking_id=-1, report boundary
    assert_eq!(d.feed(EV_ABS, ABS_MT_TRACKING_ID, -1), vec![]);
    assert_eq!(
        d.feed(EV_SYN, SYN_REPORT, 0),
        vec![Event::Touch { slot: 2, kind: TouchKind::End, x: 15, y: 20 }]
    );
}

#[test]
fn position_updates_batch_into_one_move() {
    let mut d = Decoder::new();
    d.feed(EV_ABS, ABS_MT_SLOT, 0);
    d.feed(EV_ABS, ABS_MT_TRACKING_ID, 7);
    d.feed(EV_SYN, SYN_REPORT, 0);

    // Several position records, one boundary: exactly one Move, last position.
    d.feed(EV_ABS, ABS_MT_POSITION_X, 1);
    d.feed(EV_ABS, ABS_MT_POSITION_X, 2);
    d.feed(EV_ABS, ABS_MT_POSITION_Y, 30);
    d.feed(EV_ABS, ABS_MT_POSITION_X, 3);
    assert_eq!(
        d.feed(EV_SYN, SYN_REPORT, 0),
        vec![Event::Touch { slot: 0, kind: TouchKind::Move, x: 3, y: 30 }]
    );
}

#[test]
fn quiet_slots_emit_nothing_at_boundary() {
    let mut d = Decoder::new();
    assert_eq!(d.feed(EV_SYN, SYN_REPORT, 0), vec![]);
    d.feed(EV_ABS, ABS_MT_SLOT, 4);
    assert_eq!(d.feed(EV_SYN, SYN_REPORT, 0), vec![]);
}

#[test]
fn begin_only_for_previously_inactive_slot() {
    let mut d = Decoder::new();
    d.feed(EV_ABS, ABS_MT_SLOT, 1);
    d.feed(EV_ABS, ABS_MT_TRACKING_ID, 9);
    let first = d.feed(EV_SYN, SYN_REPORT, 0);
    assert_eq!(first, vec![Event::Touch { slot: 1, kind: TouchKind::Begin, x: 0, y: 0 }]);

    // A fresh tracking id on the already-active slot starts nothing new.
    d.feed(EV_ABS, ABS_MT_TRACKING_ID, 11);
    assert_eq!(d.feed(EV_SYN, SYN_REPORT, 0), vec![]);
}

#[test]
fn release_produces_end_on_next_boundary() {
    let mut d = Decoder::new();
    d.feed(EV_ABS, ABS_MT_SLOT, 3);
    d.feed(EV_ABS, ABS_MT_TRACKING_ID, 42);
    d.feed(EV_ABS, ABS_MT_POSITION_X, 100);
    d.feed(EV_ABS, ABS_MT_POSITION_Y, 200);
    d.feed(EV_SYN, SYN_REPORT, 0);

    d.feed(EV_ABS, ABS_MT_TRACKING_ID, -1);
    assert_eq!(
        d.feed(EV_SYN, SYN_REPORT, 0),
        vec![Event::Touch { slot: 3, kind: TouchKind::End, x: 100, y: 200 }]
    );
    // Nothing more is owed afterwards.
    assert_eq!(d.feed(EV_SYN, SYN_REPORT, 0), vec![]);
}

#[test]
fn release_of_inactive_slot_emits_nothing() {
    let mut d = Decoder::new();
    d.feed(EV_ABS, ABS_MT_SLOT, 5);
    d.feed(EV_ABS, ABS_MT_TRACKING_ID, -1);
    assert_eq!(d.feed(EV_SYN, SYN_REPORT, 0), vec![]);
}

#[test]
fn begin_and_release_within_one_report_cancel() {
    let mut d = Decoder::new();
    d.feed(EV_ABS, ABS_MT_SLOT, 6);
    d.feed(EV_ABS, ABS_MT_TRACKING_ID, 8);
    d.feed(EV_ABS, ABS_MT_TRACKING_ID, -1);
    assert_eq!(d.feed(EV_SYN, SYN_REPORT, 0), vec![]);
}

#[test]
fn out_of_range_slot_is_dropped_and_counted() {
    let mut d = Decoder::new();
    assert_eq!(d.dropped_records(), 0);

    // Establish a contact on slot 2.
    d.feed(EV_ABS, ABS_MT_SLOT, 2);
    d.feed(EV_ABS, ABS_MT_TRACKING_ID, 5);
    d.feed(EV_SYN, SYN_REPORT, 0);

    // A selector outside 0..10 is dropped; the current slot stays 2.
    assert_eq!(d.feed(EV_ABS, ABS_MT_SLOT, 10), vec![]);
    assert_eq!(d.dropped_records(), 1);
    assert_eq!(d.feed(EV_ABS, ABS_MT_SLOT, -1), vec![]);
    assert_eq!(d.dropped_records(), 2);

    // Position records still address slot 2, whose state is intact.
    d.feed(EV_ABS, ABS_MT_POSITION_X, 77);
    assert_eq!(
        d.feed(EV_SYN, SYN_REPORT, 0),
        vec![Event::Touch { slot: 2, kind: TouchKind::Move, x: 77, y: 0 }]
    );
}

#[test]
fn key_records_map_directly_to_key_events() {
    let mut d = Decoder::new();
    assert_eq!(d.feed(EV_KEY, 30, 1), vec![Event::Key { code: 30, pressed: true }]);
    assert_eq!(d.feed(EV_KEY, 30, 0), vec![Event::Key { code: 30, pressed: false }]);
    // Key events need no report boundary; the boundary owes nothing for them.
    assert_eq!(d.feed(EV_SYN, SYN_REPORT, 0), vec![]);
}

#[test]
fn unrecognized_records_are_ignored() {
    let mut d = Decoder::new();
    assert_eq!(d.feed(2, 0, 1), vec![]);
    assert_eq!(d.feed(EV_ABS, 99, 5), vec![]);
    assert_eq!(d.feed(EV_SYN, 1, 0), vec![]);
    assert_eq!(d.feed(EV_SYN, SYN_REPORT, 0), vec![]);
}

#[test]
fn two_slots_flush_in_slot_order() {
    let mut d = Decoder::new();
    d.feed(EV_ABS, ABS_MT_SLOT, 1);
    d.feed(EV_ABS, ABS_MT_TRACKING_ID, 3);
    d.feed(EV_ABS, ABS_MT_POSITION_X, 11);
    d.feed(EV_ABS, ABS_MT_SLOT, 0);
    d.feed(EV_ABS, ABS_MT_TRACKING_ID, 4);
    d.feed(EV_ABS, ABS_MT_POSITION_X, 22);
    assert_eq!(
        d.feed(EV_SYN, SYN_REPORT, 0),
        vec![
            Event::Touch { slot: 0, kind: TouchKind::Begin, x: 22, y: 0 },
            Event::Touch { slot: 1, kind: TouchKind::Begin, x: 11, y: 0 },
        ]
    );
}
