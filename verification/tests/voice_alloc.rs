use puget::voice_alloc::SlotAllocator;

#[test]
fn note_on_fills_free_slots_in_order() {
    let mut a = SlotAllocator::new(3);
    assert_eq!(a.slot_count(), 3);
    assert_eq!(a.note_on(60), 0);
    assert_eq!(a.note_on(62), 1);
    assert_eq!(a.note_on(64), 2);
    assert_eq!(a.slot_note(1), Some(62));
}

#[test]
fn full_pool_steals_the_oldest() {
    let mut a = SlotAllocator::new(2);
    a.note_on(60); // slot 0, stamp 1
    a.note_on(62); // slot 1, stamp 2
    assert_eq!(a.note_on(64), 0); // oldest is slot 0
    assert_eq!(a.note_on(65), 1); // now slot 1 is oldest
    assert_eq!(a.slot_note(0), Some(64));
    assert_eq!(a.slot_note(1), Some(65));
}

#[test]
fn note_off_frees_every_slot_of_the_note() {
    let mut a = SlotAllocator::new(4);
    a.note_on(60);
    a.note_on(60);
    a.note_on(62);
    assert_eq!(a.note_off(60), vec![0, 1]);
    assert_eq!(a.slot_note(0), None);
    assert_eq!(a.slot_note(1), None);
    assert_eq!(a.slot_note(2), Some(62));
    assert!(a.note_off(70).is_empty());
    // A freed slot is reused before any steal.
    assert_eq!(a.note_on(67), 0);
}

#[test]
fn zero_slots_become_one() {
    let mut a = SlotAllocator::new(0);
    assert_eq!(a.slot_count(), 1);
    assert_eq!(a.note_on(1), 0);
    assert_eq!(a.note_on(2), 0);
}
