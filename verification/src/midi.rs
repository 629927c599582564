//! MIDI channel voice messages and the set of notes currently held.

use std::sync::mpsc::Sender;
use vstd::prelude::*;

verus! {

/// The sending half of a `std::sync::mpsc` channel. Nothing is known of
/// what is inside it; it is only handed on to `send`.
#[verifier::external_type_specification]
#[verifier::external_body]
#[verifier::reject_recursive_types(T)]
pub struct ExSender<T>(Sender<T>);

/// The kind of a channel voice message, named by the high nibble of its
/// status byte (`0x8` to `0xE`).
#[derive(Debug, PartialEq, Eq, Structural, Clone, Copy)]
pub enum MidiMessageTypes {
    NoteOff,
    NoteOn,
    PolyphonicPressure,
    ControlChange,
    ProgramChange,
    ChannelPressure,
    PitchBend,
}

impl MidiMessageTypes {
    /// The kind that a status nibble stands for, if it stands for one.
    pub open spec fn spec_from_nibble(nibble: u8) -> Option<MidiMessageTypes> {
        match nibble {
            0x8 => Some(MidiMessageTypes::NoteOff),
            0x9 => Some(MidiMessageTypes::NoteOn),
            0xA => Some(MidiMessageTypes::PolyphonicPressure),
            0xB => Some(MidiMessageTypes::ControlChange),
            0xC => Some(MidiMessageTypes::ProgramChange),
            0xD => Some(MidiMessageTypes::ChannelPressure),
            0xE => Some(MidiMessageTypes::PitchBend),
            _ => None,
        }
    }

    /// The status nibble of a kind.
    pub open spec fn spec_nibble(self) -> u8 {
        match self {
            MidiMessageTypes::NoteOff => 0x8,
            MidiMessageTypes::NoteOn => 0x9,
            MidiMessageTypes::PolyphonicPressure => 0xA,
            MidiMessageTypes::ControlChange => 0xB,
            MidiMessageTypes::ProgramChange => 0xC,
            MidiMessageTypes::ChannelPressure => 0xD,
            MidiMessageTypes::PitchBend => 0xE,
        }
    }

    /// The status nibble of this kind.
    pub fn nibble(&self) -> (n: u8)
        ensures
            n == self.spec_nibble(),
            Self::spec_from_nibble(n) == Some(*self),
    {
        match self {
            MidiMessageTypes::NoteOff => 0x8,
            MidiMessageTypes::NoteOn => 0x9,
            MidiMessageTypes::PolyphonicPressure => 0xA,
            MidiMessageTypes::ControlChange => 0xB,
            MidiMessageTypes::ProgramChange => 0xC,
            MidiMessageTypes::ChannelPressure => 0xD,
            MidiMessageTypes::PitchBend => 0xE,
        }
    }
}

impl TryFrom<u8> for MidiMessageTypes {
    type Error = ();

    /// Reads a status nibble; any value outside `0x8..=0xE` is refused.
    fn try_from(value: u8) -> (r: Result<Self, Self::Error>) {
        match value {
            0x8 => Ok(MidiMessageTypes::NoteOff),
            0x9 => Ok(MidiMessageTypes::NoteOn),
            0xA => Ok(MidiMessageTypes::PolyphonicPressure),
            0xB => Ok(MidiMessageTypes::ControlChange),
            0xC => Ok(MidiMessageTypes::ProgramChange),
            0xD => Ok(MidiMessageTypes::ChannelPressure),
            0xE => Ok(MidiMessageTypes::PitchBend),
            _ => Err(()),
        }
    }
}

impl vstd::std_specs::convert::TryFromSpecImpl<u8> for MidiMessageTypes {
    open spec fn obeys_try_from_spec() -> bool {
        true
    }

    open spec fn try_from_spec(value: u8) -> Result<Self, Self::Error> {
        match Self::spec_from_nibble(value) {
            Some(kind) => Ok(kind),
            None => Err(()),
        }
    }
}

/// Why three raw bytes were not accepted as a message.
#[derive(Debug, PartialEq, Eq, Structural, Clone, Copy)]
pub enum ParseError {
    /// Fewer than three bytes were supplied.
    Truncated,
    /// The high nibble of the status byte names none of the seven kinds.
    UnrecognizedKind,
}

/// A parsed message: its kind and channel, then the two data bytes. For note
/// messages `data_byte1` is the note number and `data_byte2` the velocity.
#[derive(Debug, PartialEq, Eq, Structural, Clone, Copy)]
pub struct MidiMessageData {
    pub channel: u8,
    pub status_byte: MidiMessageTypes,
    pub data_byte1: u8,
    pub data_byte2: u8,
}

/// What three raw bytes parse to: the status byte splits into kind (high
/// nibble) and channel (low nibble), the data bytes are taken as they are.
pub open spec fn spec_parse(byte0: u8, byte1: u8, byte2: u8) -> Result<
    MidiMessageData,
    ParseError,
> {
    match MidiMessageTypes::spec_from_nibble(byte0 / 16) {
        Some(kind) => Ok(
            MidiMessageData {
                channel: byte0 % 16,
                status_byte: kind,
                data_byte1: byte1,
                data_byte2: byte2,
            },
        ),
        None => Err(ParseError::UnrecognizedKind),
    }
}

impl MidiMessageData {
    /// A key press: note-on with a velocity other than zero.
    pub open spec fn is_press(&self) -> bool {
        self.status_byte == MidiMessageTypes::NoteOn && self.data_byte2 != 0
    }

    /// A key release: note-off, or note-on with velocity zero.
    pub open spec fn is_release(&self) -> bool {
        self.status_byte == MidiMessageTypes::NoteOff || (self.status_byte
            == MidiMessageTypes::NoteOn && self.data_byte2 == 0)
    }

    /// Parses the three bytes of a message.
    pub fn new(byte0: u8, byte1: u8, byte2: u8) -> (r: Result<MidiMessageData, ParseError>)
        ensures
            r == spec_parse(byte0, byte1, byte2),
    {
        let high: u8 = byte0 >> 4;
        let low: u8 = byte0 & 0x0F;
        assert(high == byte0 / 16) by (bit_vector)
            requires
                high == byte0 >> 4,
        ;
        assert(low == byte0 % 16) by (bit_vector)
            requires
                low == byte0 & 0x0F,
        ;
        match MidiMessageTypes::try_from(high) {
            Ok(kind) => Ok(
                MidiMessageData {
                    channel: low,
                    status_byte: kind,
                    data_byte1: byte1,
                    data_byte2: byte2,
                },
            ),
            Err(_) => Err(ParseError::UnrecognizedKind),
        }
    }

    /// Whether this message adds its note to the held notes.
    pub fn should_add_midi_message(&self) -> (r: bool)
        ensures
            r == self.is_press(),
    {
        self.status_byte == MidiMessageTypes::NoteOn && self.data_byte2 != 0x00u8
    }

    /// Whether this message removes its note from the held notes.
    pub fn should_remove_midi_message(&self) -> (r: bool)
        ensures
            r == self.is_release(),
    {
        (self.status_byte == MidiMessageTypes::NoteOn && self.data_byte2 == 0x00u8)
            || self.status_byte == MidiMessageTypes::NoteOff
    }
}

/// Whether some held note has the given note number.
pub open spec fn holds_note(notes: Seq<MidiMessageData>, note: u8) -> bool {
    exists|i: int| 0 <= i < notes.len() && (#[trigger] notes[i]).data_byte1 == note
}

/// The held notes without those of the given note number, the others in
/// their order.
pub open spec fn without_note(notes: Seq<MidiMessageData>, note: u8) -> Seq<MidiMessageData> {
    notes.filter(|m: MidiMessageData| m.data_byte1 != note)
}

/// No two held notes share a note number.
pub open spec fn distinct_notes(notes: Seq<MidiMessageData>) -> bool {
    forall|i: int, j: int|
        0 <= i < j < notes.len() ==> (#[trigger] notes[i]).data_byte1 != (
        #[trigger] notes[j]).data_byte1
}

/// The held notes after one message. A press is appended unless its note
/// number is already held; a release removes its note number; any other
/// message changes nothing. The channel plays no part.
pub open spec fn next_notes(notes: Seq<MidiMessageData>, event: MidiMessageData) -> Seq<
    MidiMessageData,
> {
    if event.is_press() {
        if holds_note(notes, event.data_byte1) {
            notes
        } else {
            notes.push(event)
        }
    } else if event.is_release() {
        without_note(notes, event.data_byte1)
    } else {
        notes
    }
}

/// The held notes after one raw message, or the reason it was not accepted.
/// Only the first three bytes are read.
pub open spec fn apply_spec(notes: Seq<MidiMessageData>, raw: Seq<u8>) -> Result<
    Seq<MidiMessageData>,
    ParseError,
> {
    if raw.len() < 3 {
        Err(ParseError::Truncated)
    } else {
        match spec_parse(raw[0], raw[1], raw[2]) {
            Ok(event) => Ok(next_notes(notes, event)),
            Err(e) => Err(e),
        }
    }
}

/// Whether a note number is among the held notes.
pub fn is_held(notes: &Vec<MidiMessageData>, note: u8) -> (r: bool)
    ensures
        r == holds_note(notes@, note),
{
    let mut i: usize = 0;
    while i < notes.len()
        invariant
            i <= notes.len(),
            forall|k: int| 0 <= k < i ==> (#[trigger] notes@[k]).data_byte1 != note,
        decreases notes.len() - i,
    {
        if notes[i].data_byte1 == note {
            return true;
        }
        i += 1;
    }
    false
}

/// Copies the held notes, leaving out every one with the given note number.
pub fn release_note(notes: &Vec<MidiMessageData>, note: u8) -> (r: Vec<MidiMessageData>)
    ensures
        r@ == without_note(notes@, note),
{
    let ghost keep = |m: MidiMessageData| m.data_byte1 != note;
    let mut kept: Vec<MidiMessageData> = Vec::new();
    let mut i: usize = 0;
    assert(notes@.take(0) =~= Seq::<MidiMessageData>::empty());
    assert(Seq::<MidiMessageData>::empty().filter(keep) =~= Seq::<MidiMessageData>::empty()) by {
        reveal(Seq::filter);
    }
    while i < notes.len()
        invariant
            i <= notes.len(),
            keep == |m: MidiMessageData| m.data_byte1 != note,
            kept@ == notes@.take(i as int).filter(keep),
        decreases notes.len() - i,
    {
        let m = notes[i];
        proof {
            assert(notes@.take(i as int + 1) =~= notes@.take(i as int).push(m));
            notes@.take(i as int).lemma_filter_push(m, keep);
        }
        if m.data_byte1 != note {
            kept.push(m);
        }
        i += 1;
    }
    assert(notes@.take(notes.len() as int) =~= notes@);
    kept
}

/// Applies one parsed message to the held notes.
pub fn apply_event(notes: Vec<MidiMessageData>, event: &MidiMessageData) -> (r: Vec<
    MidiMessageData,
>)
    ensures
        r@ == next_notes(notes@, *event),
        distinct_notes(notes@) ==> distinct_notes(r@),
{
    proof {
        if distinct_notes(notes@) {
            lemma_next_notes_distinct(notes@, *event);
        }
    }
    let mut held = notes;
    if event.should_add_midi_message() {
        if !is_held(&held, event.data_byte1) {
            held.push(*event);
        }
        held
    } else if event.should_remove_midi_message() {
        release_note(&held, event.data_byte1)
    } else {
        held
    }
}

/// Applies one raw message to the held notes and returns the notes held
/// afterwards. `current` itself is never changed, so a refused message leaves
/// the caller's set as it was.
pub fn apply(current: &Vec<MidiMessageData>, raw: &[u8]) -> (r: Result<
    Vec<MidiMessageData>,
    ParseError,
>)
    ensures
        match r {
            Ok(next) => apply_spec(current@, raw@) == Ok::<Seq<MidiMessageData>, ParseError>(
                next@,
            ),
            Err(e) => apply_spec(current@, raw@) == Err::<Seq<MidiMessageData>, ParseError>(e),
        },
        r matches Ok(next) ==> (distinct_notes(current@) ==> distinct_notes(next@)),
{
    if raw.len() < 3 {
        return Err(ParseError::Truncated);
    }
    match MidiMessageData::new(raw[0], raw[1], raw[2]) {
        Ok(event) => Ok(apply_event(copy_notes(current), &event)),
        Err(e) => Err(e),
    }
}

/// Copies the held notes.
pub fn copy_notes(notes: &Vec<MidiMessageData>) -> (r: Vec<MidiMessageData>)
    ensures
        r@ == notes@,
{
    let mut copy: Vec<MidiMessageData> = Vec::new();
    let mut i: usize = 0;
    while i < notes.len()
        invariant
            i <= notes.len(),
            copy@ == notes@.take(i as int),
        decreases notes.len() - i,
    {
        copy.push(notes[i]);
        assert(notes@.take(i as int + 1) =~= notes@.take(i as int).push(notes@[i as int]));
        i += 1;
    }
    assert(notes@.take(notes.len() as int) =~= notes@);
    copy
}

/// A set in which no note number occurs twice stays so under every message.
pub proof fn lemma_next_notes_distinct(notes: Seq<MidiMessageData>, event: MidiMessageData)
    requires
        distinct_notes(notes),
    ensures
        distinct_notes(next_notes(notes, event)),
{
    if event.is_press() {
        if !holds_note(notes, event.data_byte1) {
            let next = notes.push(event);
            assert forall|i: int, j: int| 0 <= i < j < next.len() implies (#[trigger] next[i]).data_byte1
                != (#[trigger] next[j]).data_byte1 by {
                if j == notes.len() {
                    assert(notes[i].data_byte1 != event.data_byte1);
                } else {
                    assert(notes[i].data_byte1 != notes[j].data_byte1);
                }
            }
        }
    } else if event.is_release() {
        lemma_without_note_distinct(notes, event.data_byte1);
    }
}

/// Removing a note number keeps the rest distinct, and leaves no entry with
/// that number.
pub proof fn lemma_without_note_distinct(notes: Seq<MidiMessageData>, note: u8)
    requires
        distinct_notes(notes),
    ensures
        distinct_notes(without_note(notes, note)),
    decreases notes.len(),
{
    reveal(Seq::filter);
    let keep = |m: MidiMessageData| m.data_byte1 != note;
    if notes.len() > 0 {
        let init = notes.drop_last();
        assert forall|i: int, j: int| 0 <= i < j < init.len() implies (#[trigger] init[i]).data_byte1
            != (#[trigger] init[j]).data_byte1 by {
            assert(notes[i].data_byte1 != notes[j].data_byte1);
        }
        lemma_without_note_distinct(init, note);
        let rest = init.filter(keep);
        if keep(notes.last()) {
            let next = rest.push(notes.last());
            assert forall|i: int, j: int| 0 <= i < j < next.len() implies (#[trigger] next[i]).data_byte1
                != (#[trigger] next[j]).data_byte1 by {
                if j == rest.len() {
                    init.lemma_filter_contains_rev(keep, rest[i]);
                    assert(init.contains(rest[i]));
                    let k = choose|k: int| 0 <= k < init.len() && init[k] == rest[i];
                    assert(notes[k].data_byte1 != notes[notes.len() - 1].data_byte1);
                } else {
                    assert(rest[i].data_byte1 != rest[j].data_byte1);
                }
            }
        }
    }
}

/// Why a callback did not hand back a new set of held notes.
#[derive(Debug, PartialEq, Eq, Structural, Clone, Copy)]
pub enum CallbackError {
    /// The message was not accepted; nothing was published.
    Malformed(ParseError),
    /// The receiving end of the snapshot channel is gone.
    ChannelClosed,
}

/// Hands one snapshot to `Sender::send` and reports whether the channel took
/// it. Nothing is claimed of the answer: `send` fails exactly when the
/// receiver has been dropped, which this side cannot know.
#[verifier::external_body]
fn send_snapshot(tx: &Sender<Vec<MidiMessageData>>, snapshot: Vec<MidiMessageData>) -> (delivered:
    bool) {
    tx.send(snapshot).is_ok()
}

/// What a callback returns once both publications of `state` were attempted:
/// the state if the channel took both, otherwise the closed channel. The
/// second publication is only attempted after the first was taken.
pub fn confirm_delivery(state: Vec<MidiMessageData>, first: bool, second: bool) -> (r: Result<
    Vec<MidiMessageData>,
    CallbackError,
>)
    ensures
        first && second ==> r == Ok::<Vec<MidiMessageData>, CallbackError>(state),
        !(first && second) ==> r == Err::<Vec<MidiMessageData>, CallbackError>(
            CallbackError::ChannelClosed,
        ),
{
    if first && second {
        Ok(state)
    } else {
        Err(CallbackError::ChannelClosed)
    }
}

/// Handles one incoming message: applies it to the held notes and publishes
/// the resulting snapshot twice, back to back, on `tx`. A message that is not
/// accepted publishes nothing. Whatever the channel answers, an `Ok` carries
/// exactly the notes held after the message.
pub fn process_callback(
    message: &[u8],
    current_messages: Vec<MidiMessageData>,
    tx: Sender<Vec<MidiMessageData>>,
) -> (r: Result<Vec<MidiMessageData>, CallbackError>)
    ensures
        match apply_spec(current_messages@, message@) {
            Err(e) => r == Err::<Vec<MidiMessageData>, CallbackError>(
                CallbackError::Malformed(e),
            ),
            Ok(next) => match r {
                Ok(held) => held@ == next,
                Err(e) => e == CallbackError::ChannelClosed,
            },
        },
        r matches Ok(held) ==> (distinct_notes(current_messages@) ==> distinct_notes(held@)),
{
    let next = match apply(&current_messages, message) {
        Ok(next) => next,
        Err(e) => {
            return Err(CallbackError::Malformed(e));
        },
    };
    let first = send_snapshot(&tx, copy_notes(&next));
    let second = if first {
        send_snapshot(&tx, copy_notes(&next))
    } else {
        false
    };
    confirm_delivery(next, first, second)
}

/// The held notes that a listener keeps after a callback: the new ones if
/// the callback handed them back, the previous ones if it failed.
pub fn state_after(
    previous: Vec<MidiMessageData>,
    outcome: Result<Vec<MidiMessageData>, CallbackError>,
) -> (r: Vec<MidiMessageData>)
    ensures
        r == match outcome {
            Ok(held) => held,
            Err(_) => previous,
        },
{
    match outcome {
        Ok(held) => held,
        Err(_) => previous,
    }
}

/// A message whose status byte has a high nibble below `0x8`, or `0xF`, is
/// refused as of no recognized kind, whatever notes are held.
pub proof fn lemma_unrecognized_kind(notes: Seq<MidiMessageData>, raw: Seq<u8>)
    requires
        raw.len() >= 3,
        raw[0] / 16 < 8 || raw[0] / 16 == 15,
    ensures
        apply_spec(notes, raw) == Err::<Seq<MidiMessageData>, ParseError>(
            ParseError::UnrecognizedKind,
        ),
{
}

/// Every message of at least three bytes whose status byte has a high nibble
/// from `0x8` to `0xE` is accepted.
pub proof fn lemma_recognized_kind(notes: Seq<MidiMessageData>, raw: Seq<u8>)
    requires
        raw.len() >= 3,
        8 <= raw[0] / 16 <= 14,
    ensures
        apply_spec(notes, raw) is Ok,
{
}

/// After a press its note number is held.
pub proof fn lemma_press_holds(notes: Seq<MidiMessageData>, event: MidiMessageData)
    requires
        event.is_press(),
    ensures
        holds_note(next_notes(notes, event), event.data_byte1),
{
    if !holds_note(notes, event.data_byte1) {
        assert(notes.push(event)[notes.len() as int] == event);
    }
}

/// A press of a note number that is already held changes nothing, so the
/// same press twice is the same press once.
pub proof fn lemma_press_twice(notes: Seq<MidiMessageData>, event: MidiMessageData)
    requires
        event.is_press(),
    ensures
        next_notes(next_notes(notes, event), event) == next_notes(notes, event),
{
    lemma_press_holds(notes, event);
}

/// After a release its note number is no longer held, and every other note
/// number is held exactly if it was before.
pub proof fn lemma_release_clears(notes: Seq<MidiMessageData>, event: MidiMessageData, other: u8)
    requires
        event.is_release(),
    ensures
        !holds_note(next_notes(notes, event), event.data_byte1),
        other != event.data_byte1 ==> (holds_note(next_notes(notes, event), other) <==> holds_note(
            notes,
            other,
        )),
{
    let note = event.data_byte1;
    let keep = |m: MidiMessageData| m.data_byte1 != note;
    let rest = without_note(notes, note);
    assert forall|j: int| 0 <= j < rest.len() implies (#[trigger] rest[j]).data_byte1 != note by {
        notes.lemma_filter_pred(keep, j);
    }
    if other != note {
        if holds_note(rest, other) {
            let j = choose|j: int| 0 <= j < rest.len() && (#[trigger] rest[j]).data_byte1 == other;
            notes.lemma_filter_contains_rev(keep, rest[j]);
            let i = choose|i: int| 0 <= i < notes.len() && notes[i] == rest[j];
            assert(notes[i].data_byte1 == other);
        }
        if holds_note(notes, other) {
            let i = choose|i: int| 0 <= i < notes.len() && (#[trigger] notes[i]).data_byte1 == other;
            notes.lemma_filter_contains(keep, i);
            let j = choose|j: int| 0 <= j < rest.len() && rest[j] == notes[i];
            assert(rest[j].data_byte1 == other);
        }
    }
}

/// A message that is neither a press nor a release leaves the held notes as
/// they are.
pub proof fn lemma_other_kinds_keep(notes: Seq<MidiMessageData>, event: MidiMessageData)
    requires
        event.status_byte != MidiMessageTypes::NoteOn,
        event.status_byte != MidiMessageTypes::NoteOff,
    ensures
        next_notes(notes, event) == notes,
{
}

/// Why no MIDI input port could be chosen.
#[derive(Debug, PartialEq, Eq, Structural, Clone, Copy)]
pub enum PortError {
    /// There is no input port at all.
    NoInputPort,
    /// Several ports exist and the requested index names none of them.
    InvalidSelection,
}

/// Which of `available` input ports to listen on.
pub open spec fn spec_select_port(available: usize, position: usize) -> Result<usize, PortError> {
    if available == 0 {
        Err(PortError::NoInputPort)
    } else if available == 1 {
        Ok(0usize)
    } else if position < available {
        Ok(position)
    } else {
        Err(PortError::InvalidSelection)
    }
}

/// Chooses the input port: none available is an error, a single port is
/// taken whatever `position` says, and among several `position` decides and
/// must name one of them.
pub fn select_port(available: usize, position: usize) -> (r: Result<usize, PortError>)
    ensures
        r == spec_select_port(available, position),
        r matches Ok(index) ==> index < available,
{
    if available == 0 {
        Err(PortError::NoInputPort)
    } else if available == 1 {
        Ok(0)
    } else if position < available {
        Ok(position)
    } else {
        Err(PortError::InvalidSelection)
    }
}

} // verus!
