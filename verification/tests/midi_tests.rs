use midi_to_switch::midi::MidiMessageData;
use midi_to_switch::midi::MidiMessageTypes;
use midi_to_switch::midi::ParseError;

#[test]
fn try_from_valid_variants() {
    let mapping = vec![
        (0x8u8, MidiMessageTypes::NoteOff),
        (0x9u8, MidiMessageTypes::NoteOn),
        (0xAu8, MidiMessageTypes::PolyphonicPressure),
        (0xBu8, MidiMessageTypes::ControlChange),
        (0xCu8, MidiMessageTypes::ProgramChange),
        (0xDu8, MidiMessageTypes::ChannelPressure),
        (0xEu8, MidiMessageTypes::PitchBend),
    ];

    for (val, expected) in mapping {
        let got = MidiMessageTypes::try_from(val).expect("should convert");
        assert_eq!(got, expected);
    }
}

#[test]
fn try_from_invalid() {
    // 0x0 and 0xF are not valid message types in our enum
    assert!(MidiMessageTypes::try_from(0x0u8).is_err());
    assert!(MidiMessageTypes::try_from(0xFu8).is_err());
}

#[test]
fn midi_message_data_parsing_valid() {
    let byte0 = (0x9u8 << 4) | 0x3u8;
    let byte1 = 0x40u8;
    let byte2 = 0x7Fu8;

    let parsed = MidiMessageData::new(byte0, byte1, byte2).expect("parse should succeed");
    assert_eq!(parsed.channel, 0x3);
    assert_eq!(parsed.status_byte, MidiMessageTypes::NoteOn);
    assert_eq!(parsed.data_byte1, byte1);
    assert_eq!(parsed.data_byte2, byte2);
}

#[test]
fn midi_message_data_parsing_invalid_type() {
    let byte0 = (0x0u8 << 4) | 0x1u8;
    let res = MidiMessageData::new(byte0, 0x00, 0x00);
    assert!(res.is_err());
}

#[test]
fn try_from_refuses_every_other_value() {
    for value in 0u8..=255 {
        let got = MidiMessageTypes::try_from(value);
        assert_eq!(got.is_ok(), (0x8..=0xE).contains(&value), "value {:#04X}", value);
    }
}

#[test]
fn nibble_round_trips_through_try_from() {
    let kinds = vec![
        MidiMessageTypes::NoteOff,
        MidiMessageTypes::NoteOn,
        MidiMessageTypes::PolyphonicPressure,
        MidiMessageTypes::ControlChange,
        MidiMessageTypes::ProgramChange,
        MidiMessageTypes::ChannelPressure,
        MidiMessageTypes::PitchBend,
    ];
    let nibbles = vec![0x8u8, 0x9, 0xA, 0xB, 0xC, 0xD, 0xE];
    for (kind, nibble) in kinds.into_iter().zip(nibbles) {
        assert_eq!(kind.nibble(), nibble);
        assert_eq!(MidiMessageTypes::try_from(kind.nibble()), Ok(kind));
    }
}

#[test]
fn parsing_splits_status_byte_for_every_value() {
    for byte0 in 0u8..=255 {
        let res = MidiMessageData::new(byte0, 0x11, 0x22);
        let high = byte0 >> 4;
        if (0x8..=0xE).contains(&high) {
            let parsed = res.expect("recognized kind");
            assert_eq!(parsed.status_byte.nibble(), high);
            assert_eq!(parsed.channel, byte0 & 0x0F);
            assert_eq!(parsed.data_byte1, 0x11);
            assert_eq!(parsed.data_byte2, 0x22);
        } else {
            assert_eq!(res, Err(ParseError::UnrecognizedKind));
        }
    }
}

#[test]
fn parsing_keeps_data_bytes_above_127() {
    let parsed = MidiMessageData::new(0x80, 0xFF, 0x80).expect("parse should succeed");
    assert_eq!(parsed.status_byte, MidiMessageTypes::NoteOff);
    assert_eq!(parsed.channel, 0);
    assert_eq!(parsed.data_byte1, 0xFF);
    assert_eq!(parsed.data_byte2, 0x80);
}
