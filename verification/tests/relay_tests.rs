use midi_to_switch::mapping::{Mapping, NoteTable};
use midi_to_switch::midi::{apply, MidiMessageData};
use midi_to_switch::nscontroller::{Button, InputReport};
use midi_to_switch::relay::{
    merge_frame, overwrite_buttons, wants_snapshot, BUTTON_BYTES_OFFSET, INPUT_REPORT_TAG,
};

fn drum_table() -> NoteTable {
    let mut table = NoteTable::new();
    table.bind_one(0x3C, Button::A);
    table.bind_two(0x28, Button::L, Button::R);
    table
}

fn sample_frame() -> Vec<u8> {
    vec![
        0x30, 0x00, 0x81, 0x00, 0x80, 0x00, 0xFB, 0xE7, 0x7F, 0xE1, 0xC7, 0x81, 0x01, 0xE9, 0xFC,
        0x1E, 0x00, 0xD6, 0x0F, 0xEA, 0xFF, 0x04, 0x00, 0xFA, 0xFF, 0xEE, 0xFC, 0x28, 0x00, 0xD8,
        0x0F, 0xEA, 0xFF, 0x04, 0x00, 0xFA, 0xFF, 0xF0, 0xFC, 0x2D, 0x00, 0xD4, 0x0F, 0xEC, 0xFF,
        0x08, 0x00, 0xF9, 0xFF, 0x00, 0x00, 0x00, 0x00, 0x00, 0x00, 0x00, 0x00, 0x00, 0x00, 0x00,
        0x00, 0x00, 0x00, 0x00,
    ]
}

fn held(numbers: &[u8]) -> Vec<MidiMessageData> {
    let mut notes = Vec::new();
    for n in numbers {
        notes = apply(&notes, &[0x90, *n, 0x40]).unwrap();
    }
    notes
}

#[test]
fn constants() {
    assert_eq!(INPUT_REPORT_TAG, 0x30);
    assert_eq!(BUTTON_BYTES_OFFSET, 3);
}

#[test]
fn end_to_end_scenario_with_direct_table() {
    let mapping = Mapping::Direct(drum_table());
    let empty: Vec<MidiMessageData> = Vec::new();

    // NoteOn(0x3C, 0x40): one note held, its button set
    let one = apply(&empty, &[0x90, 0x3C, 0x40]).unwrap();
    assert_eq!(one.len(), 1);
    assert_eq!(mapping.report(&one).report, [0x08, 0x80, 0x00]);

    // NoteOn(0x28, 0x40): both of its buttons set, and the first note's bit too
    let two = apply(&one, &[0x90, 0x28, 0x40]).unwrap();
    assert_eq!(two.len(), 2);
    assert_eq!(mapping.report(&two).report, [0x48, 0x80, 0x40]);

    // NoteOff(0x3C, 0x00): its bit clears, the other note's bits stay
    let rest = apply(&two, &[0x80, 0x3C, 0x00]).unwrap();
    assert_eq!(rest.len(), 1);
    assert_eq!(mapping.report(&rest).report, [0x40, 0x80, 0x40]);

    // and the frame that goes to the gadget carries those bytes
    let out = merge_frame(&mapping, sample_frame(), Some(two));
    assert_eq!(&out[3..6], &[0x48, 0x80, 0x40]);
}

#[test]
fn direct_table_lookup() {
    let mut table = drum_table();
    assert!(table.lookup(0x3C).contains(&Button::A));
    assert!(!table.lookup(0x3C).contains(&Button::L));
    assert!(table.lookup(0x28).contains(&Button::L));
    assert!(table.lookup(0x28).contains(&Button::R));
    assert!(!table.lookup(0x28).contains(&Button::A));
    // a miss gives no buttons
    assert!(table.lookup(0x00).is_empty());
    assert!(table.lookup(0x29).is_empty());
    assert!(table.lookup(0xFF).is_empty());
    assert!(NoteTable::new().lookup(0x3C).is_empty());
    // binding again replaces
    table.bind_one(0x28, Button::ZL);
    assert!(table.lookup(0x28).contains(&Button::ZL));
    assert!(!table.lookup(0x28).contains(&Button::L));
    assert!(!table.lookup(0x28).contains(&Button::R));
    // unbinding removes, and leaves the others
    table.unbind(0x28);
    assert!(table.lookup(0x28).is_empty());
    assert!(table.lookup(0x3C).contains(&Button::A));
    table.unbind(0xF0);
    assert!(table.lookup(0xF0).is_empty());
    table.bind_one(0xFF, Button::Home);
    assert!(table.lookup(0xFF).contains(&Button::Home));
    assert!(table.lookup(0xFE).is_empty());
}

#[test]
fn direct_mapping_ignores_unmapped_notes() {
    let mapping = Mapping::Direct(drum_table());
    assert!(mapping.buttons_for(&held(&[0x10])[0]).is_empty());
    assert_eq!(mapping.report(&held(&[0x10, 0x11])).report, [0x00, 0x80, 0x00]);
    assert_eq!(mapping.report(&held(&[0x10, 0x3C])).report, [0x08, 0x80, 0x00]);
}

#[test]
fn chromatic_mapping_folds_octaves() {
    let mapping = Mapping::Chromatic;
    for n in 0u8..=243 {
        let low = mapping.report(&held(&[n])).report;
        let high = mapping.report(&held(&[n + 12])).report;
        assert_eq!(low, high);
        assert_eq!(low, InputReport::from(&held(&[n])[0]).report);
    }
    // 0x06 and 0x12 are both F sharp: L
    assert_eq!(mapping.report(&held(&[0x06])).report, [0x00, 0x80, 0x40]);
    assert_eq!(mapping.report(&held(&[0x12])).report, [0x00, 0x80, 0x40]);
    assert!(mapping.buttons_for(&held(&[0x12])[0]).contains(&Button::L));
}

#[test]
fn chromatic_report_is_the_union_of_all_held_notes() {
    let mapping = Mapping::Chromatic;
    // C (Y), E (R), G sharp (DpadDown)
    let notes = held(&[0x3C, 0x40, 0x44]);
    assert_eq!(mapping.report(&notes).report, [0x41, 0x80, 0x01]);
    // order of the held notes makes no difference
    assert_eq!(mapping.report(&held(&[0x44, 0x3C, 0x40])).report, [0x41, 0x80, 0x01]);
    // two notes of the same pitch class press the one button once
    assert_eq!(mapping.report(&held(&[0x3C, 0x48])).report, [0x01, 0x80, 0x00]);
    assert!(mapping.pressed(&notes).contains(&Button::R));
    assert!(!mapping.pressed(&notes).contains(&Button::X));
    assert!(mapping.pressed(&Vec::new()).is_empty());
}

#[test]
fn untagged_frame_passes_through() {
    let mapping = Mapping::Chromatic;
    let notes = held(&[0x3C, 0x40]);
    for tag in [0x00u8, 0x21, 0x2F, 0x31, 0x80, 0x81, 0xFF] {
        let mut frame = sample_frame();
        frame[0] = tag;
        assert!(!wants_snapshot(&frame));
        assert_eq!(merge_frame(&mapping, frame.clone(), Some(notes.clone())), frame);
        assert_eq!(merge_frame(&mapping, frame.clone(), None), frame);
    }
    let empty: Vec<u8> = Vec::new();
    assert!(!wants_snapshot(&empty));
    assert_eq!(merge_frame(&mapping, empty.clone(), Some(notes)), empty);
}

#[test]
fn input_report_without_snapshot_passes_through() {
    let frame = sample_frame();
    assert!(wants_snapshot(&frame));
    assert_eq!(merge_frame(&Mapping::Chromatic, frame.clone(), None), frame);
}

#[test]
fn input_report_with_snapshot_gets_button_bytes() {
    let mut frame = sample_frame();
    frame[3] = 0xFF;
    frame[4] = 0x7F;
    frame[5] = 0xFF;
    let out = merge_frame(&Mapping::Chromatic, frame.clone(), Some(held(&[0x3C, 0x43])));
    // C is Y, G is ZL
    let mut expected = frame.clone();
    expected[3] = 0x01;
    expected[4] = 0x80;
    expected[5] = 0x80;
    assert_eq!(out, expected);
    assert_eq!(out.len(), 64);
}

#[test]
fn input_report_with_empty_snapshot_gets_no_buttons() {
    let mut frame = sample_frame();
    frame[3] = 0xFF;
    frame[4] = 0x7F;
    frame[5] = 0xFF;
    let out = merge_frame(&Mapping::Chromatic, frame.clone(), Some(Vec::new()));
    let mut expected = frame;
    expected[3] = 0x00;
    expected[4] = 0x80;
    expected[5] = 0x00;
    assert_eq!(out, expected);
}

#[test]
fn short_tagged_frame_passes_through() {
    let notes = held(&[0x3C]);
    for len in 1..6usize {
        let frame = vec![0x30u8; len];
        assert!(!wants_snapshot(&frame));
        assert_eq!(merge_frame(&Mapping::Chromatic, frame.clone(), Some(notes.clone())), frame);
    }
    let six = vec![0x30u8; 6];
    assert!(wants_snapshot(&six));
    assert_eq!(
        merge_frame(&Mapping::Chromatic, six, Some(notes)),
        vec![0x30, 0x30, 0x30, 0x01, 0x80, 0x00]
    );
}

#[test]
fn overwrite_buttons_cases() {
    let report = InputReport { report: [0x11, 0x22, 0x33] };
    assert_eq!(
        overwrite_buttons(vec![1, 2, 3, 4, 5, 6, 7], &report),
        vec![1, 2, 3, 0x11, 0x22, 0x33, 7]
    );
    assert_eq!(overwrite_buttons(vec![1, 2, 3, 4, 5], &report), vec![1, 2, 3, 4, 5]);
    assert_eq!(overwrite_buttons(Vec::new(), &report), Vec::<u8>::new());
}
