use midi_to_switch::midi::{MidiMessageData, MidiMessageTypes};
use midi_to_switch::nscontroller::{Button, ButtonSet, InputReport, Pitch};

fn all_buttons() -> Vec<Button> {
    vec![
        Button::Y,
        Button::X,
        Button::B,
        Button::A,
        Button::R,
        Button::ZR,
        Button::Minus,
        Button::Plus,
        Button::RightStick,
        Button::LeftStick,
        Button::Home,
        Button::Capture,
        Button::DpadDown,
        Button::DpadUp,
        Button::DpadRight,
        Button::DpadLeft,
        Button::L,
        Button::ZL,
    ]
}

fn set_of(buttons: &[Button]) -> ButtonSet {
    let mut set = ButtonSet::new();
    for b in buttons {
        set.insert(*b);
    }
    set
}

fn note(number: u8) -> MidiMessageData {
    MidiMessageData {
        channel: 0,
        status_byte: MidiMessageTypes::NoteOn,
        data_byte1: number,
        data_byte2: 0x40,
    }
}

#[test]
fn input_report_new_has_expected_default() {
    let r = InputReport::new();
    assert_eq!(r.report, [0x00, 0x80, 0x00]);
}

#[test]
fn from_midi_message_uses_mapping() {
    // data_byte1 0x06u8 maps to Button::L
    let midi = MidiMessageData {
        channel: 0,
        status_byte: MidiMessageTypes::NoteOn,
        data_byte1: 0x06u8,
        data_byte2: 0,
    };
    let r = InputReport::from(&midi);
    // L is in byte 2 offset 6
    assert_eq!(r.report, [0x00, 0x80, 0x40]);
}

#[test]
fn encode_empty_is_default() {
    assert_eq!(InputReport::encode(&ButtonSet::new()).report, [0x00, 0x80, 0x00]);
}

#[test]
fn encode_each_button_sets_its_bit() {
    let expected: Vec<(Button, [u8; 3])> = vec![
        (Button::Y, [0x01, 0x80, 0x00]),
        (Button::X, [0x02, 0x80, 0x00]),
        (Button::B, [0x04, 0x80, 0x00]),
        (Button::A, [0x08, 0x80, 0x00]),
        (Button::R, [0x40, 0x80, 0x00]),
        (Button::ZR, [0x80, 0x80, 0x00]),
        (Button::Minus, [0x00, 0x81, 0x00]),
        (Button::Plus, [0x00, 0x82, 0x00]),
        (Button::RightStick, [0x00, 0x84, 0x00]),
        (Button::LeftStick, [0x00, 0x88, 0x00]),
        (Button::Home, [0x00, 0x90, 0x00]),
        (Button::Capture, [0x00, 0xA0, 0x00]),
        (Button::DpadDown, [0x00, 0x80, 0x01]),
        (Button::DpadUp, [0x00, 0x80, 0x02]),
        (Button::DpadRight, [0x00, 0x80, 0x04]),
        (Button::DpadLeft, [0x00, 0x80, 0x08]),
        (Button::L, [0x00, 0x80, 0x40]),
        (Button::ZL, [0x00, 0x80, 0x80]),
    ];
    for (button, bytes) in expected {
        assert_eq!(InputReport::encode(&set_of(&[button])).report, bytes, "{:?}", button);
    }
}

#[test]
fn encode_all_buttons() {
    let r = InputReport::encode(&set_of(&all_buttons()));
    assert_eq!(r.report, [0xCF, 0xBF, 0xCF]);
}

#[test]
fn encode_is_the_same_each_time_and_in_any_order() {
    let forward = set_of(&[Button::A, Button::Home, Button::ZL, Button::Y]);
    let backward = set_of(&[Button::Y, Button::ZL, Button::Home, Button::A]);
    let repeated = set_of(&[Button::A, Button::A, Button::Home, Button::ZL, Button::Y, Button::Y]);
    let first = InputReport::encode(&forward).report;
    assert_eq!(first, [0x09, 0x90, 0x80]);
    assert_eq!(InputReport::encode(&forward).report, first);
    assert_eq!(InputReport::encode(&backward).report, first);
    assert_eq!(InputReport::encode(&repeated).report, first);
}

#[test]
fn encode_union_is_bitwise_or() {
    let a = [Button::Y, Button::Plus, Button::L];
    let b = [Button::ZR, Button::Capture, Button::DpadUp];
    let ea = InputReport::encode(&set_of(&a)).report;
    let eb = InputReport::encode(&set_of(&b)).report;
    assert_eq!(ea, [0x01, 0x82, 0x40]);
    assert_eq!(eb, [0x80, 0xA0, 0x02]);
    let mut both = set_of(&a);
    both.union_with(&set_of(&b));
    let eu = InputReport::encode(&both).report;
    assert_eq!(eu, [0x81, 0xA2, 0x42]);
    assert_eq!(eu, [ea[0] | eb[0], ea[1] | eb[1], ea[2] | eb[2]]);
}

#[test]
fn encode_union_of_overlapping_sets() {
    let a = [Button::Y, Button::X];
    let b = [Button::X, Button::B];
    let mut both = set_of(&a);
    both.union_with(&set_of(&b));
    assert_eq!(InputReport::encode(&both).report, [0x07, 0x80, 0x00]);
}

#[test]
fn press_one_sets_one_bit_and_keeps_the_rest() {
    let mut r = InputReport::new();
    assert_eq!(r.press_one(&Button::A), Ok(()));
    assert_eq!(r.report, [0x08, 0x80, 0x00]);
    assert_eq!(r.press_one(&Button::ZR), Ok(()));
    assert_eq!(r.report, [0x88, 0x80, 0x00]);
    // pressing again changes nothing
    assert_eq!(r.press_one(&Button::A), Ok(()));
    assert_eq!(r.report, [0x88, 0x80, 0x00]);
    // bits already in the report stay
    let mut custom = InputReport { report: [0x30, 0x40, 0xFF] };
    assert_eq!(custom.press_one(&Button::Home), Ok(()));
    assert_eq!(custom.report, [0x30, 0x50, 0xFF]);
}

#[test]
fn find_packet_position_for_every_button() {
    let r = InputReport::new();
    for (i, button) in all_buttons().iter().enumerate() {
        assert_eq!(r.find_packet_position(button), Ok(i / 6), "{:?}", button);
        assert_eq!(button.byte_index(), i / 6);
        for byte in 0..3usize {
            assert_eq!(button.in_byte(byte), byte == i / 6);
        }
    }
}

#[test]
fn bit_offsets_and_masks() {
    let offsets: Vec<u8> = vec![0, 1, 2, 3, 6, 7, 0, 1, 2, 3, 4, 5, 0, 1, 2, 3, 6, 7];
    for (button, offset) in all_buttons().iter().zip(offsets) {
        assert_eq!(button.bit_offset(), offset, "{:?}", button);
        assert_eq!(button.mask(), 1u8 << offset, "{:?}", button);
    }
}

#[test]
fn pitch_from_index() {
    let pitches = vec![
        Pitch::C,
        Pitch::CSharp,
        Pitch::D,
        Pitch::DSharp,
        Pitch::E,
        Pitch::F,
        Pitch::FSharp,
        Pitch::G,
        Pitch::GSharp,
        Pitch::A,
        Pitch::ASharp,
        Pitch::B,
    ];
    for (i, pitch) in pitches.iter().enumerate() {
        assert_eq!(Pitch::from_index(i as u8), Some(*pitch));
    }
    assert_eq!(Pitch::from_index(12), None);
    assert_eq!(Pitch::from_index(255), None);
}

#[test]
fn pitch_from_midi_never_fails() {
    for number in 0u8..=255 {
        let pitch = Pitch::from_midi(&note(number)).expect("every note has a pitch class");
        assert_eq!(Some(pitch), Pitch::from_index(number % 12));
    }
}

#[test]
fn pitch_buttons() {
    let expected = vec![
        (Pitch::C, Button::Y),
        (Pitch::CSharp, Button::X),
        (Pitch::D, Button::B),
        (Pitch::DSharp, Button::A),
        (Pitch::E, Button::R),
        (Pitch::F, Button::ZR),
        (Pitch::FSharp, Button::L),
        (Pitch::G, Button::ZL),
        (Pitch::GSharp, Button::DpadDown),
        (Pitch::A, Button::DpadUp),
        (Pitch::ASharp, Button::DpadLeft),
        (Pitch::B, Button::DpadRight),
    ];
    for (pitch, button) in expected {
        assert_eq!(pitch.button(), button);
    }
}

#[test]
fn notes_an_octave_apart_fold_onto_the_same_button() {
    assert_eq!(InputReport::from(&note(0x06)).report, InputReport::from(&note(0x12)).report);
    for number in 0u8..=243 {
        assert_eq!(
            InputReport::from(&note(number)).report,
            InputReport::from(&note(number + 12)).report
        );
    }
}

#[test]
fn from_ignores_kind_channel_and_velocity() {
    let a = MidiMessageData {
        channel: 5,
        status_byte: MidiMessageTypes::NoteOff,
        data_byte1: 0x3C,
        data_byte2: 0x00,
    };
    // 0x3C is a C, which is Y
    assert_eq!(InputReport::from(&a).report, [0x01, 0x80, 0x00]);
    assert_eq!(InputReport::from(&note(0x3C)).report, [0x01, 0x80, 0x00]);
}

#[test]
fn button_set_operations() {
    let mut set = ButtonSet::new();
    assert!(set.is_empty());
    assert!(!set.contains(&Button::A));
    set.insert(Button::A);
    set.insert(Button::A);
    assert!(!set.is_empty());
    assert!(set.contains(&Button::A));
    assert!(!set.contains(&Button::B));
    let mut other = ButtonSet::new();
    other.insert(Button::B);
    other.insert(Button::Home);
    set.union_with(&other);
    for button in all_buttons() {
        let expected = button == Button::A || button == Button::B || button == Button::Home;
        assert_eq!(set.contains(&button), expected, "{:?}", button);
    }
    // union with the empty set changes nothing
    set.union_with(&ButtonSet::new());
    assert_eq!(InputReport::encode(&set).report, [0x0C, 0x90, 0x00]);
}
