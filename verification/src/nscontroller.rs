//! Buttons of the controller and the three button bytes of its input report.
//!
//! Layout of the button bytes, bit 7 on the left:
//!
//! | byte | 7  | 6 | 5       | 4    | 3          | 2           | 1  | 0    |
//! |------|----|---|---------|------|------------|-------------|----|------|
//! | 0    | ZR | R |         |      | A          | B           | X  | Y    |
//! | 1    | *  |   | Capture | Home | LeftStick  | RightStick  | +  | -    |
//! | 2    | ZL | L |         |      | Left       | Right       | Up | Down |
//!
//! The bit marked `*` is always set and belongs to no button.

use crate::midi::MidiMessageData;
use vstd::prelude::*;

verus! {

/// A button of the controller.
#[derive(Hash, Eq, PartialEq, Structural, Debug, Clone, Copy)]
pub enum Button {
    Y,
    X,
    B,
    A,
    R,
    ZR,
    Minus,
    Plus,
    RightStick,
    LeftStick,
    Home,
    Capture,
    DpadDown,
    DpadUp,
    DpadRight,
    DpadLeft,
    L,
    ZL,
}

/// One of the twelve pitch classes.
#[derive(Hash, Eq, PartialEq, Structural, Debug, Clone, Copy)]
pub enum Pitch {
    C,
    CSharp,
    D,
    DSharp,
    E,
    F,
    FSharp,
    G,
    GSharp,
    A,
    ASharp,
    B,
}

/// A button was asked for that the report layout has no place for.
#[derive(Debug, PartialEq, Eq, Structural, Clone, Copy)]
pub enum ConfigError {
    /// No pitch class belongs to the index.
    UnmappedPitch,
    /// No byte or bit of the report belongs to the button.
    UnmappedButton,
}

impl Button {
    /// Which of the three button bytes holds the button.
    pub open spec fn spec_byte_index(self) -> int {
        match self {
            Button::Y | Button::X | Button::B | Button::A | Button::R | Button::ZR => 0,
            Button::Minus
            | Button::Plus
            | Button::RightStick
            | Button::LeftStick
            | Button::Home
            | Button::Capture => 1,
            Button::DpadDown
            | Button::DpadUp
            | Button::DpadRight
            | Button::DpadLeft
            | Button::L
            | Button::ZL => 2,
        }
    }

    /// Which bit of its byte the button is, counted from the lowest.
    pub open spec fn spec_bit_offset(self) -> u8 {
        match self {
            Button::Y => 0,
            Button::X => 1,
            Button::B => 2,
            Button::A => 3,
            Button::R => 6,
            Button::ZR => 7,
            Button::Minus => 0,
            Button::Plus => 1,
            Button::RightStick => 2,
            Button::LeftStick => 3,
            Button::Home => 4,
            Button::Capture => 5,
            Button::DpadDown => 0,
            Button::DpadUp => 1,
            Button::DpadRight => 2,
            Button::DpadLeft => 3,
            Button::L => 6,
            Button::ZL => 7,
        }
    }

    /// The button's bit as a value of its byte: two to the bit offset.
    pub open spec fn spec_mask(self) -> u8 {
        match self.spec_bit_offset() {
            0 => 0x01,
            1 => 0x02,
            2 => 0x04,
            3 => 0x08,
            4 => 0x10,
            5 => 0x20,
            6 => 0x40,
            _ => 0x80,
        }
    }

    /// Which of the three button bytes holds this button.
    pub fn byte_index(&self) -> (index: usize)
        ensures
            index == self.spec_byte_index(),
            index < 3,
    {
        match self {
            Button::Y | Button::X | Button::B | Button::A | Button::R | Button::ZR => 0,
            Button::Minus
            | Button::Plus
            | Button::RightStick
            | Button::LeftStick
            | Button::Home
            | Button::Capture => 1,
            Button::DpadDown
            | Button::DpadUp
            | Button::DpadRight
            | Button::DpadLeft
            | Button::L
            | Button::ZL => 2,
        }
    }

    /// Whether this button lies in the given one of the three button bytes.
    pub fn in_byte(&self, index: usize) -> (r: bool)
        ensures
            r == (self.spec_byte_index() == index),
    {
        self.byte_index() == index
    }

    /// Which bit of its byte this button is.
    pub fn bit_offset(&self) -> (offset: u8)
        ensures
            offset == self.spec_bit_offset(),
            offset < 8,
    {
        match self {
            Button::Y => 0,
            Button::X => 1,
            Button::B => 2,
            Button::A => 3,
            Button::R => 6,
            Button::ZR => 7,
            Button::Minus => 0,
            Button::Plus => 1,
            Button::RightStick => 2,
            Button::LeftStick => 3,
            Button::Home => 4,
            Button::Capture => 5,
            Button::DpadDown => 0,
            Button::DpadUp => 1,
            Button::DpadRight => 2,
            Button::DpadLeft => 3,
            Button::L => 6,
            Button::ZL => 7,
        }
    }

    /// This button's bit as a value of its byte.
    pub fn mask(&self) -> (m: u8)
        ensures
            m == self.spec_mask(),
    {
        let offset: u8 = self.bit_offset();
        let m: u8 = 1u8 << offset;
        proof {
            lemma_one_shifted(offset, m);
        }
        m
    }
}

/// The value of one shifted left by each of the eight bit offsets.
proof fn lemma_one_shifted(offset: u8, m: u8)
    by (bit_vector)
    requires
        offset < 8,
        m == 1u8 << offset,
    ensures
        offset == 0 ==> m == 0x01,
        offset == 1 ==> m == 0x02,
        offset == 2 ==> m == 0x04,
        offset == 3 ==> m == 0x08,
        offset == 4 ==> m == 0x10,
        offset == 5 ==> m == 0x20,
        offset == 6 ==> m == 0x40,
        offset == 7 ==> m == 0x80,
{
}

impl Pitch {
    /// The pitch class with the given index, `C` being 0; none from 12 on.
    pub open spec fn spec_from_index(index: u8) -> Option<Pitch> {
        match index {
            0 => Some(Pitch::C),
            1 => Some(Pitch::CSharp),
            2 => Some(Pitch::D),
            3 => Some(Pitch::DSharp),
            4 => Some(Pitch::E),
            5 => Some(Pitch::F),
            6 => Some(Pitch::FSharp),
            7 => Some(Pitch::G),
            8 => Some(Pitch::GSharp),
            9 => Some(Pitch::A),
            10 => Some(Pitch::ASharp),
            11 => Some(Pitch::B),
            _ => None,
        }
    }

    /// The pitch class of a note number: the class of its remainder by 12.
    pub open spec fn spec_of_note(note: u8) -> Pitch {
        Self::spec_from_index(note % 12).unwrap()
    }

    /// The one button that stands for a pitch class.
    pub open spec fn spec_button(self) -> Button {
        match self {
            Pitch::C => Button::Y,
            Pitch::CSharp => Button::X,
            Pitch::D => Button::B,
            Pitch::DSharp => Button::A,
            Pitch::E => Button::R,
            Pitch::F => Button::ZR,
            Pitch::FSharp => Button::L,
            Pitch::G => Button::ZL,
            Pitch::GSharp => Button::DpadDown,
            Pitch::A => Button::DpadUp,
            Pitch::ASharp => Button::DpadLeft,
            Pitch::B => Button::DpadRight,
        }
    }

    /// The pitch class with the given index.
    pub fn from_index(index: u8) -> (r: Option<Pitch>)
        ensures
            r == Self::spec_from_index(index),
            r is Some <==> index < 12,
    {
        match index {
            0 => Some(Pitch::C),
            1 => Some(Pitch::CSharp),
            2 => Some(Pitch::D),
            3 => Some(Pitch::DSharp),
            4 => Some(Pitch::E),
            5 => Some(Pitch::F),
            6 => Some(Pitch::FSharp),
            7 => Some(Pitch::G),
            8 => Some(Pitch::GSharp),
            9 => Some(Pitch::A),
            10 => Some(Pitch::ASharp),
            11 => Some(Pitch::B),
            _ => None,
        }
    }

    /// The pitch class of a message's note number. Every remainder by 12 has
    /// a class, so this never fails.
    pub fn from_midi(midi_data: &MidiMessageData) -> (r: Result<Pitch, ConfigError>)
        ensures
            r == Ok::<Pitch, ConfigError>(Self::spec_of_note(midi_data.data_byte1)),
    {
        let note_number_mod: u8 = midi_data.data_byte1 % 12;
        match Pitch::from_index(note_number_mod) {
            Some(pitch) => Ok(pitch),
            None => Err(ConfigError::UnmappedPitch),
        }
    }

    /// The button that stands for this pitch class.
    pub fn button(&self) -> (b: Button)
        ensures
            b == self.spec_button(),
    {
        match self {
            Pitch::C => Button::Y,
            Pitch::CSharp => Button::X,
            Pitch::D => Button::B,
            Pitch::DSharp => Button::A,
            Pitch::E => Button::R,
            Pitch::F => Button::ZR,
            Pitch::FSharp => Button::L,
            Pitch::G => Button::ZL,
            Pitch::GSharp => Button::DpadDown,
            Pitch::A => Button::DpadUp,
            Pitch::ASharp => Button::DpadLeft,
            Pitch::B => Button::DpadRight,
        }
    }
}

/// The button that a note number folds onto by its pitch class.
pub open spec fn chromatic_button(note: u8) -> Button {
    Pitch::spec_of_note(note).spec_button()
}

/// Notes an octave apart fold onto the same button.
pub proof fn lemma_octave_same_button(low: u8, high: u8)
    requires
        high == low + 12,
    ensures
        chromatic_button(low) == chromatic_button(high),
{
    assert(high % 12 == low % 12);
}

/// Notes whose numbers leave the same remainder by 12 fold onto the same
/// button, however many octaves apart they are.
pub proof fn lemma_pitch_class_same_button(a: u8, b: u8)
    requires
        a % 12 == b % 12,
    ensures
        chromatic_button(a) == chromatic_button(b),
{
}

/// Different pitch classes never share a button.
pub proof fn lemma_pitch_button_injective(p: Pitch, q: Pitch)
    requires
        p.spec_button() == q.spec_button(),
    ensures
        p == q,
{
}

/// A set of buttons.
pub struct ButtonSet {
    items: Vec<Button>,
}

impl View for ButtonSet {
    type V = Set<Button>;

    closed spec fn view(&self) -> Set<Button> {
        self.items@.to_set()
    }
}

impl ButtonSet {
    /// The empty set.
    pub fn new() -> (set: ButtonSet)
        ensures
            set@ == Set::<Button>::empty(),
    {
        let set = ButtonSet { items: Vec::new() };
        assert(set.items@.to_set() =~= Set::<Button>::empty());
        set
    }

    /// Whether the button is in the set.
    pub fn contains(&self, button: &Button) -> (r: bool)
        ensures
            r == self@.contains(*button),
    {
        let mut i: usize = 0;
        while i < self.items.len()
            invariant
                i <= self.items.len(),
                forall|k: int| 0 <= k < i ==> self.items@[k] != *button,
            decreases self.items.len() - i,
        {
            if self.items[i] == *button {
                assert(self.items@.contains(*button));
                return true;
            }
            i += 1;
        }
        false
    }

    /// Whether the set holds no button.
    pub fn is_empty(&self) -> (r: bool)
        ensures
            r == (self@ == Set::<Button>::empty()),
    {
        proof {
            if self.items@.len() > 0 {
                assert(self.items@.contains(self.items@[0]));
                assert(self@.contains(self.items@[0]));
            } else {
                assert(self@ =~= Set::<Button>::empty());
            }
        }
        self.items.len() == 0
    }

    /// Adds a button; one that is already in the set changes nothing.
    pub fn insert(&mut self, button: Button)
        ensures
            final(self)@ == old(self)@.insert(button),
    {
        if self.contains(&button) {
            assert(self@.insert(button) =~= self@);
        } else {
            proof {
                self.items@.lemma_push_to_set_commute(button);
            }
            self.items.push(button);
        }
    }

    /// Adds every button of `other`.
    pub fn union_with(&mut self, other: &ButtonSet)
        ensures
            final(self)@ == old(self)@.union(other@),
    {
        let mut i: usize = 0;
        assert(other.items@.take(0).to_set() =~= Set::<Button>::empty());
        assert(self@.union(Set::<Button>::empty()) =~= self@);
        while i < other.items.len()
            invariant
                i <= other.items.len(),
                self@ == old(self)@.union(other.items@.take(i as int).to_set()),
            decreases other.items.len() - i,
        {
            let b = other.items[i];
            proof {
                let seen = other.items@.take(i as int);
                assert(other.items@.take(i as int + 1) =~= seen.push(b));
                seen.lemma_push_to_set_commute(b);
                assert(old(self)@.union(seen.to_set()).insert(b) =~= old(self)@.union(
                    seen.to_set().insert(b),
                ));
            }
            self.insert(b);
            i += 1;
        }
        assert(other.items@.take(other.items@.len() as int) =~= other.items@);
    }
}

/// Bitwise or of the six bits of one group.
pub open spec fn or6(a: u8, b: u8, c: u8, d: u8, e: u8, f: u8) -> u8 {
    a | b | c | d | e | f
}

/// What a button adds to its byte: its mask if it is pressed, nothing if not.
pub open spec fn pressed_bit(buttons: Set<Button>, button: Button) -> u8 {
    if buttons.contains(button) {
        button.spec_mask()
    } else {
        0u8
    }
}

/// The pressed bits of the six buttons of one group, or-ed together.
pub open spec fn group_bits(
    buttons: Set<Button>,
    a: Button,
    b: Button,
    c: Button,
    d: Button,
    e: Button,
    f: Button,
) -> u8 {
    or6(
        pressed_bit(buttons, a),
        pressed_bit(buttons, b),
        pressed_bit(buttons, c),
        pressed_bit(buttons, d),
        pressed_bit(buttons, e),
        pressed_bit(buttons, f),
    )
}

/// The three button bytes that say "exactly these buttons are pressed". Bit
/// `0x80` of the middle byte is set whatever the buttons are.
pub open spec fn encode_spec(buttons: Set<Button>) -> Seq<u8> {
    seq![
        group_bits(buttons, Button::Y, Button::X, Button::B, Button::A, Button::R, Button::ZR),
        0x80u8 | group_bits(
            buttons,
            Button::Minus,
            Button::Plus,
            Button::RightStick,
            Button::LeftStick,
            Button::Home,
            Button::Capture,
        ),
        group_bits(
            buttons,
            Button::DpadDown,
            Button::DpadUp,
            Button::DpadRight,
            Button::DpadLeft,
            Button::L,
            Button::ZL,
        ),
    ]
}

/// Bitwise or of two button-byte triples, byte by byte.
pub open spec fn or_bytes(x: Seq<u8>, y: Seq<u8>) -> Seq<u8> {
    seq![x[0] | y[0], x[1] | y[1], x[2] | y[2]]
}

/// The button bytes of an input report.
#[derive(Debug, Clone, Copy)]
pub struct InputReport {
    pub report: [u8; 3],
}

impl InputReport {
    /// The report with no button pressed.
    pub fn new() -> (r: InputReport)
        ensures
            r.report@ == seq![0x00u8, 0x80u8, 0x00u8],
            r.report@ == encode_spec(Set::<Button>::empty()),
    {
        let r = InputReport { report: [0x00, 0x80, 0x00] };
        proof {
            lemma_encode_empty();
            assert(r.report@ =~= seq![0x00u8, 0x80u8, 0x00u8]);
        }
        r
    }

    /// The report of one held note under the pitch-class mapping: the one
    /// button of the note's pitch class is pressed.
    pub fn from(midi_data: &MidiMessageData) -> (r: InputReport)
        ensures
            r.report@ == encode_spec(set![chromatic_button(midi_data.data_byte1)]),
    {
        let mut input_report = InputReport::new();
        let pressed_pitch = match Pitch::from_midi(midi_data) {
            Ok(value) => value,
            Err(_) => {
                return input_report;
            },
        };
        let pressed_button = pressed_pitch.button();
        proof {
            lemma_encode_insert(Set::<Button>::empty(), pressed_button);
            assert(Set::<Button>::empty().insert(pressed_button) =~= set![pressed_button]);
        }
        let _ = input_report.press_one(&pressed_button);
        input_report
    }

    /// The report that says exactly the buttons of `buttons` are pressed.
    pub fn encode(buttons: &ButtonSet) -> (r: InputReport)
        ensures
            r.report@ == encode_spec(buttons@),
    {
        let mut input_report = InputReport::new();
        let mut i: usize = 0;
        proof {
            lemma_encoded_prefix_ends(buttons.items@);
        }
        while i < buttons.items.len()
            invariant
                i <= buttons.items.len(),
                input_report.report@ == encoded_prefix(buttons.items@, i as int),
            decreases buttons.items.len() - i,
        {
            let b = buttons.items[i];
            proof {
                lemma_encoded_prefix_next(buttons.items@, i as int);
            }
            let _ = input_report.press_one(&b);
            i += 1;
        }
        proof {
            lemma_encoded_prefix_ends(buttons.items@);
        }
        input_report
    }

    /// Which byte of the report holds the button. The three bytes are tried
    /// in turn; every button lies in one of them, so the search never fails.
    pub fn find_packet_position(&self, key: &Button) -> (r: Result<usize, ConfigError>)
        ensures
            r == Ok::<usize, ConfigError>(key.spec_byte_index() as usize),
    {
        if key.in_byte(0) {
            Ok(0)
        } else if key.in_byte(1) {
            Ok(1)
        } else if key.in_byte(2) {
            Ok(2)
        } else {
            Err(ConfigError::UnmappedButton)
        }
    }

    /// Presses one button: sets its bit in its byte and leaves every other
    /// bit as it was. Every button has a place, so this never fails.
    pub fn press_one(&mut self, key: &Button) -> (r: Result<(), ConfigError>)
        ensures
            r == Ok::<(), ConfigError>(()),
            final(self).report@ == old(self).report@.update(
                key.spec_byte_index(),
                old(self).report@[key.spec_byte_index()] | key.spec_mask(),
            ),
    {
        let position = match self.find_packet_position(key) {
            Ok(position) => position,
            Err(e) => {
                return Err(e);
            },
        };
        let bit: u8 = key.mask();
        let byte: u8 = self.report[position];
        self.report[position] = byte | bit;
        Ok(())
    }
}

/// Or-ing a mask into a group is the same as replacing, by the mask, any of
/// the six bits that is either clear or that mask already; and the reserved
/// bit can be or-ed in before or after.
proof fn lemma_or6_press(x0: u8, x1: u8, x2: u8, x3: u8, x4: u8, x5: u8, m: u8)
    by (bit_vector)
    ensures
        (x0 == 0 || x0 == m) ==> or6(m, x1, x2, x3, x4, x5) == or6(x0, x1, x2, x3, x4, x5) | m,
        (x1 == 0 || x1 == m) ==> or6(x0, m, x2, x3, x4, x5) == or6(x0, x1, x2, x3, x4, x5) | m,
        (x2 == 0 || x2 == m) ==> or6(x0, x1, m, x3, x4, x5) == or6(x0, x1, x2, x3, x4, x5) | m,
        (x3 == 0 || x3 == m) ==> or6(x0, x1, x2, m, x4, x5) == or6(x0, x1, x2, x3, x4, x5) | m,
        (x4 == 0 || x4 == m) ==> or6(x0, x1, x2, x3, m, x5) == or6(x0, x1, x2, x3, x4, x5) | m,
        (x5 == 0 || x5 == m) ==> or6(x0, x1, x2, x3, x4, m) == or6(x0, x1, x2, x3, x4, x5) | m,
        (0x80u8 | or6(x0, x1, x2, x3, x4, x5)) | m == 0x80u8 | (or6(x0, x1, x2, x3, x4, x5) | m),
{
}

/// Adding a button to the set or-s its mask into a group that holds it and
/// leaves every other group as it was.
proof fn lemma_group_insert(
    s: Set<Button>,
    x: Button,
    a: Button,
    b: Button,
    c: Button,
    d: Button,
    e: Button,
    f: Button,
)
    requires
        a != b && a != c && a != d && a != e && a != f,
        b != c && b != d && b != e && b != f,
        c != d && c != e && c != f,
        d != e && d != f,
        e != f,
    ensures
        (x == a || x == b || x == c || x == d || x == e || x == f) ==> group_bits(
            s.insert(x),
            a,
            b,
            c,
            d,
            e,
            f,
        ) == group_bits(s, a, b, c, d, e, f) | x.spec_mask(),
        !(x == a || x == b || x == c || x == d || x == e || x == f) ==> group_bits(
            s.insert(x),
            a,
            b,
            c,
            d,
            e,
            f,
        ) == group_bits(s, a, b, c, d, e, f),
{
    lemma_or6_press(
        pressed_bit(s, a),
        pressed_bit(s, b),
        pressed_bit(s, c),
        pressed_bit(s, d),
        pressed_bit(s, e),
        pressed_bit(s, f),
        x.spec_mask(),
    );
}

/// Pressing one more button sets that button's bit in its byte and changes
/// nothing else.
pub proof fn lemma_encode_insert(s: Set<Button>, x: Button)
    ensures
        encode_spec(s.insert(x)) == encode_spec(s).update(
            x.spec_byte_index(),
            encode_spec(s)[x.spec_byte_index()] | x.spec_mask(),
        ),
{
    lemma_group_insert(s, x, Button::Y, Button::X, Button::B, Button::A, Button::R, Button::ZR);
    lemma_group_insert(
        s,
        x,
        Button::Minus,
        Button::Plus,
        Button::RightStick,
        Button::LeftStick,
        Button::Home,
        Button::Capture,
    );
    lemma_group_insert(
        s,
        x,
        Button::DpadDown,
        Button::DpadUp,
        Button::DpadRight,
        Button::DpadLeft,
        Button::L,
        Button::ZL,
    );
    let t = s.insert(x);
    lemma_or6_press(
        pressed_bit(s, Button::Minus),
        pressed_bit(s, Button::Plus),
        pressed_bit(s, Button::RightStick),
        pressed_bit(s, Button::LeftStick),
        pressed_bit(s, Button::Home),
        pressed_bit(s, Button::Capture),
        x.spec_mask(),
    );
    assert(encode_spec(t) =~= encode_spec(s).update(
        x.spec_byte_index(),
        encode_spec(s)[x.spec_byte_index()] | x.spec_mask(),
    ));
}

/// The bytes after the first `i` buttons of a list were pressed.
#[verifier::opaque]
spec fn encoded_prefix(items: Seq<Button>, i: int) -> Seq<u8> {
    encode_spec(items.take(i).to_set())
}

/// Before any button the bytes are the default; after the last they are
/// the encoding of the whole list.
proof fn lemma_encoded_prefix_ends(items: Seq<Button>)
    ensures
        encoded_prefix(items, 0) == seq![0x00u8, 0x80u8, 0x00u8],
        encoded_prefix(items, items.len() as int) == encode_spec(items.to_set()),
{
    reveal(encoded_prefix);
    lemma_encode_empty();
    assert(items.take(0).to_set() =~= Set::<Button>::empty());
    assert(items.take(items.len() as int) =~= items);
}

/// Pressing the next button of the list extends the prefix by one.
proof fn lemma_encoded_prefix_next(items: Seq<Button>, i: int)
    requires
        0 <= i < items.len(),
    ensures
        encoded_prefix(items, i + 1) == encoded_prefix(items, i).update(
            items[i].spec_byte_index(),
            encoded_prefix(items, i)[items[i].spec_byte_index()] | items[i].spec_mask(),
        ),
{
    reveal(encoded_prefix);
    let seen = items.take(i);
    assert(items.take(i + 1) =~= seen.push(items[i]));
    seen.lemma_push_to_set_commute(items[i]);
    lemma_encode_insert(seen.to_set(), items[i]);
}

/// With no button pressed the bytes are `00 80 00`.
pub proof fn lemma_encode_empty()
    ensures
        encode_spec(Set::<Button>::empty()) == seq![0x00u8, 0x80u8, 0x00u8],
{
    assert(or6(0, 0, 0, 0, 0, 0) == 0u8 && (0x80u8 | or6(0, 0, 0, 0, 0, 0)) == 0x80u8)
        by (bit_vector);
    assert(encode_spec(Set::<Button>::empty()) =~= seq![0x00u8, 0x80u8, 0x00u8]);
}

/// The bytes depend on nothing but which buttons are in the set: two sets
/// with the same buttons encode alike, however each was built.
pub proof fn lemma_encode_deterministic(x: ButtonSet, y: ButtonSet)
    requires
        x@ == y@,
    ensures
        encode_spec(x@) == encode_spec(y@),
{
}

/// Two lists of buttons that hold the same buttons, in whatever order and
/// however often, encode to the same bytes.
pub proof fn lemma_encode_order_free(x: Seq<Button>, y: Seq<Button>)
    requires
        forall|b: Button| x.contains(b) <==> y.contains(b),
    ensures
        encode_spec(x.to_set()) == encode_spec(y.to_set()),
{
    assert(x.to_set() =~= y.to_set());
}

/// Or distributes over the six bits of a group, with or without the
/// reserved bit.
proof fn lemma_or6_union(
    x0: u8,
    x1: u8,
    x2: u8,
    x3: u8,
    x4: u8,
    x5: u8,
    y0: u8,
    y1: u8,
    y2: u8,
    y3: u8,
    y4: u8,
    y5: u8,
)
    by (bit_vector)
    ensures
        or6(x0 | y0, x1 | y1, x2 | y2, x3 | y3, x4 | y4, x5 | y5) == or6(x0, x1, x2, x3, x4, x5)
            | or6(y0, y1, y2, y3, y4, y5),
        (0x80u8 | or6(x0 | y0, x1 | y1, x2 | y2, x3 | y3, x4 | y4, x5 | y5)) == (0x80u8 | or6(
            x0,
            x1,
            x2,
            x3,
            x4,
            x5,
        )) | (0x80u8 | or6(y0, y1, y2, y3, y4, y5)),
{
}

/// A button is pressed in a union exactly if it is pressed in a part.
proof fn lemma_pressed_bit_union(s: Set<Button>, t: Set<Button>, b: Button)
    ensures
        pressed_bit(s.union(t), b) == pressed_bit(s, b) | pressed_bit(t, b),
{
    let m = b.spec_mask();
    assert(m | m == m && m | 0u8 == m && 0u8 | m == m && 0u8 | 0u8 == 0u8) by (bit_vector);
}

/// The bits of a group for a union are the or of the bits for its parts.
proof fn lemma_group_union(
    s: Set<Button>,
    t: Set<Button>,
    a: Button,
    b: Button,
    c: Button,
    d: Button,
    e: Button,
    f: Button,
)
    ensures
        group_bits(s.union(t), a, b, c, d, e, f) == group_bits(s, a, b, c, d, e, f) | group_bits(
            t,
            a,
            b,
            c,
            d,
            e,
            f,
        ),
        (0x80u8 | group_bits(s.union(t), a, b, c, d, e, f)) == (0x80u8 | group_bits(
            s,
            a,
            b,
            c,
            d,
            e,
            f,
        )) | (0x80u8 | group_bits(t, a, b, c, d, e, f)),
{
    lemma_pressed_bit_union(s, t, a);
    lemma_pressed_bit_union(s, t, b);
    lemma_pressed_bit_union(s, t, c);
    lemma_pressed_bit_union(s, t, d);
    lemma_pressed_bit_union(s, t, e);
    lemma_pressed_bit_union(s, t, f);
    lemma_or6_union(
        pressed_bit(s, a),
        pressed_bit(s, b),
        pressed_bit(s, c),
        pressed_bit(s, d),
        pressed_bit(s, e),
        pressed_bit(s, f),
        pressed_bit(t, a),
        pressed_bit(t, b),
        pressed_bit(t, c),
        pressed_bit(t, d),
        pressed_bit(t, e),
        pressed_bit(t, f),
    );
}

/// The bytes of a union are the bitwise or of the bytes of its parts. This
/// holds of any two sets, whether or not they share buttons.
pub proof fn lemma_encode_union(s: Set<Button>, t: Set<Button>)
    ensures
        encode_spec(s.union(t)) == or_bytes(encode_spec(s), encode_spec(t)),
{
    lemma_group_union(s, t, Button::Y, Button::X, Button::B, Button::A, Button::R, Button::ZR);
    lemma_group_union(
        s,
        t,
        Button::Minus,
        Button::Plus,
        Button::RightStick,
        Button::LeftStick,
        Button::Home,
        Button::Capture,
    );
    lemma_group_union(
        s,
        t,
        Button::DpadDown,
        Button::DpadUp,
        Button::DpadRight,
        Button::DpadLeft,
        Button::L,
        Button::ZL,
    );
    assert(encode_spec(s.union(t)) =~= or_bytes(encode_spec(s), encode_spec(t)));
}

/// In the first and the last byte each of the six masks picks out its own
/// bit, and bits 4 and 5 stay clear.
proof fn lemma_outer_bits(x0: u8, x1: u8, x2: u8, x3: u8, x4: u8, x5: u8)
    by (bit_vector)
    requires
        x0 == 0 || x0 == 0x01,
        x1 == 0 || x1 == 0x02,
        x2 == 0 || x2 == 0x04,
        x3 == 0 || x3 == 0x08,
        x4 == 0 || x4 == 0x40,
        x5 == 0 || x5 == 0x80,
    ensures
        or6(x0, x1, x2, x3, x4, x5) & 0x01 == x0,
        or6(x0, x1, x2, x3, x4, x5) & 0x02 == x1,
        or6(x0, x1, x2, x3, x4, x5) & 0x04 == x2,
        or6(x0, x1, x2, x3, x4, x5) & 0x08 == x3,
        or6(x0, x1, x2, x3, x4, x5) & 0x40 == x4,
        or6(x0, x1, x2, x3, x4, x5) & 0x80 == x5,
        or6(x0, x1, x2, x3, x4, x5) & 0x30 == 0,
{
}

/// In the middle byte each of the six masks picks out its own bit, bit 7
/// is set and bit 6 stays clear.
proof fn lemma_middle_bits(x0: u8, x1: u8, x2: u8, x3: u8, x4: u8, x5: u8)
    by (bit_vector)
    requires
        x0 == 0 || x0 == 0x01,
        x1 == 0 || x1 == 0x02,
        x2 == 0 || x2 == 0x04,
        x3 == 0 || x3 == 0x08,
        x4 == 0 || x4 == 0x10,
        x5 == 0 || x5 == 0x20,
    ensures
        (0x80u8 | or6(x0, x1, x2, x3, x4, x5)) & 0x01 == x0,
        (0x80u8 | or6(x0, x1, x2, x3, x4, x5)) & 0x02 == x1,
        (0x80u8 | or6(x0, x1, x2, x3, x4, x5)) & 0x04 == x2,
        (0x80u8 | or6(x0, x1, x2, x3, x4, x5)) & 0x08 == x3,
        (0x80u8 | or6(x0, x1, x2, x3, x4, x5)) & 0x10 == x4,
        (0x80u8 | or6(x0, x1, x2, x3, x4, x5)) & 0x20 == x5,
        (0x80u8 | or6(x0, x1, x2, x3, x4, x5)) & 0xC0 == 0x80,
{
}

/// A button's bit is set in the encoded bytes exactly when the button is in
/// the set: no two buttons share a bit, and none shares the reserved one.
pub proof fn lemma_encode_bit(s: Set<Button>, b: Button)
    ensures
        (encode_spec(s)[b.spec_byte_index()] & b.spec_mask()) == pressed_bit(s, b),
        (encode_spec(s)[b.spec_byte_index()] & b.spec_mask()) != 0 <==> s.contains(b),
{
    lemma_outer_bits(
        pressed_bit(s, Button::Y),
        pressed_bit(s, Button::X),
        pressed_bit(s, Button::B),
        pressed_bit(s, Button::A),
        pressed_bit(s, Button::R),
        pressed_bit(s, Button::ZR),
    );
    lemma_middle_bits(
        pressed_bit(s, Button::Minus),
        pressed_bit(s, Button::Plus),
        pressed_bit(s, Button::RightStick),
        pressed_bit(s, Button::LeftStick),
        pressed_bit(s, Button::Home),
        pressed_bit(s, Button::Capture),
    );
    lemma_outer_bits(
        pressed_bit(s, Button::DpadDown),
        pressed_bit(s, Button::DpadUp),
        pressed_bit(s, Button::DpadRight),
        pressed_bit(s, Button::DpadLeft),
        pressed_bit(s, Button::L),
        pressed_bit(s, Button::ZL),
    );
}

/// The bits that belong to no button never change: the reserved bit of the
/// middle byte is always set, and the unused bits are always clear.
pub proof fn lemma_encode_fixed_bits(s: Set<Button>)
    ensures
        encode_spec(s).len() == 3,
        encode_spec(s)[0] & 0x30 == 0,
        encode_spec(s)[1] & 0xC0 == 0x80,
        encode_spec(s)[2] & 0x30 == 0,
{
    lemma_outer_bits(
        pressed_bit(s, Button::Y),
        pressed_bit(s, Button::X),
        pressed_bit(s, Button::B),
        pressed_bit(s, Button::A),
        pressed_bit(s, Button::R),
        pressed_bit(s, Button::ZR),
    );
    lemma_middle_bits(
        pressed_bit(s, Button::Minus),
        pressed_bit(s, Button::Plus),
        pressed_bit(s, Button::RightStick),
        pressed_bit(s, Button::LeftStick),
        pressed_bit(s, Button::Home),
        pressed_bit(s, Button::Capture),
    );
    lemma_outer_bits(
        pressed_bit(s, Button::DpadDown),
        pressed_bit(s, Button::DpadUp),
        pressed_bit(s, Button::DpadRight),
        pressed_bit(s, Button::DpadLeft),
        pressed_bit(s, Button::L),
        pressed_bit(s, Button::ZL),
    );
}

/// Different sets encode to different bytes.
pub proof fn lemma_encode_injective(s: Set<Button>, t: Set<Button>)
    requires
        encode_spec(s) == encode_spec(t),
    ensures
        s == t,
{
    assert forall|b: Button| s.contains(b) == t.contains(b) by {
        lemma_encode_bit(s, b);
        lemma_encode_bit(t, b);
    }
    assert(s =~= t);
}

} // verus!
