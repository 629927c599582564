//! From held notes to pressed buttons: the two mapping strategies.

use crate::midi::{without_note, MidiMessageData};
use crate::nscontroller::{chromatic_button, encode_spec, Button, ButtonSet, InputReport, Pitch};
use vstd::prelude::*;

verus! {

/// What one note number of a table stands for.
#[derive(Clone, Copy)]
enum Slot {
    Vacant,
    One(Button),
    Two(Button, Button),
}

impl Slot {
    /// The buttons of a slot.
    spec fn buttons(self) -> Set<Button> {
        match self {
            Slot::Vacant => Set::<Button>::empty(),
            Slot::One(a) => set![a],
            Slot::Two(a, b) => set![a, b],
        }
    }
}

/// A table from note numbers to one or two buttons each, for an instrument
/// with a fixed layout. A note number that the table does not hold stands
/// for no button.
pub struct NoteTable {
    slots: Vec<Slot>,
}

impl View for NoteTable {
    type V = Map<u8, Set<Button>>;

    closed spec fn view(&self) -> Map<u8, Set<Button>> {
        Map::new(
            |note: u8| (note as int) < self.slots@.len() && !(self.slots@[note as int] is Vacant),
            |note: u8| self.slots@[note as int].buttons(),
        )
    }
}

/// The buttons that a table gives for a note number: those it is bound to,
/// none if it is not bound.
pub open spec fn table_buttons(table: Map<u8, Set<Button>>, note: u8) -> Set<Button> {
    if table.dom().contains(note) {
        table[note]
    } else {
        Set::<Button>::empty()
    }
}

impl NoteTable {
    /// The table that binds no note.
    pub fn new() -> (table: NoteTable)
        ensures
            table@ == Map::<u8, Set<Button>>::empty(),
    {
        let table = NoteTable { slots: Vec::new() };
        assert(table@ =~= Map::<u8, Set<Button>>::empty());
        table
    }

    /// Stores a slot for a note number, growing the table with vacant slots
    /// as far as needed.
    fn put(&mut self, note: u8, slot: Slot)
        ensures
            final(self).slots@.len() > note,
            final(self).slots@.len() >= old(self).slots@.len(),
            final(self).slots@[note as int] == slot,
            forall|k: int|
                0 <= k < final(self).slots@.len() && k != note ==> #[trigger] final(self).slots@[k]
                    == if k < old(self).slots@.len() {
                    old(self).slots@[k]
                } else {
                    Slot::Vacant
                },
    {
        while self.slots.len() <= note as usize
            invariant
                self.slots@.len() >= old(self).slots@.len(),
                forall|k: int|
                    0 <= k < self.slots@.len() ==> #[trigger] self.slots@[k] == if k < old(
                        self,
                    ).slots@.len() {
                        old(self).slots@[k]
                    } else {
                        Slot::Vacant
                    },
            decreases 256 - self.slots.len(),
        {
            self.slots.push(Slot::Vacant);
        }
        self.slots[note as usize] = slot;
    }

    /// Binds a note number to one button, in place of what it was bound to.
    pub fn bind_one(&mut self, note: u8, button: Button)
        ensures
            final(self)@ == old(self)@.insert(note, set![button]),
    {
        self.put(note, Slot::One(button));
        assert(self@ =~= old(self)@.insert(note, set![button]));
    }

    /// Binds a note number to two buttons pressed together, in place of what
    /// it was bound to.
    pub fn bind_two(&mut self, note: u8, first: Button, second: Button)
        ensures
            final(self)@ == old(self)@.insert(note, set![first, second]),
    {
        self.put(note, Slot::Two(first, second));
        assert(self@ =~= old(self)@.insert(note, set![first, second]));
    }

    /// Takes a note number out of the table.
    pub fn unbind(&mut self, note: u8)
        ensures
            final(self)@ == old(self)@.remove(note),
    {
        self.put(note, Slot::Vacant);
        assert(self@ =~= old(self)@.remove(note));
    }

    /// The buttons of a note number; none if the table does not hold it. A
    /// miss is no error.
    pub fn lookup(&self, note: u8) -> (buttons: ButtonSet)
        ensures
            buttons@ == table_buttons(self@, note),
            buttons@.finite(),
            buttons@.len() <= 2,
    {
        let mut buttons = ButtonSet::new();
        if (note as usize) < self.slots.len() {
            match self.slots[note as usize] {
                Slot::Vacant => {},
                Slot::One(a) => {
                    buttons.insert(a);
                },
                Slot::Two(a, b) => {
                    buttons.insert(a);
                    buttons.insert(b);
                },
            }
        }
        buttons
    }
}

/// How a note number is turned into buttons.
pub enum Mapping {
    /// By pitch class: the note number's remainder by 12 picks one of twelve
    /// buttons, whatever the octave.
    Chromatic,
    /// By a table of note numbers; a note that the table lacks presses
    /// nothing.
    Direct(NoteTable),
}

impl Mapping {
    /// The buttons of one note number.
    pub open spec fn spec_buttons(&self, note: u8) -> Set<Button> {
        match self {
            Mapping::Chromatic => set![chromatic_button(note)],
            Mapping::Direct(table) => table_buttons(table@, note),
        }
    }

    /// The buttons of a set of held notes: every button that some held note
    /// stands for.
    pub open spec fn spec_pressed(&self, notes: Seq<MidiMessageData>) -> Set<Button> {
        Set::new(
            |b: Button|
                exists|i: int|
                    0 <= i < notes.len() && self.spec_buttons(
                        (#[trigger] notes[i]).data_byte1,
                    ).contains(b),
        )
    }

    /// The buttons that a message's note number stands for. Only the note
    /// number is read; kind, channel and velocity play no part.
    pub fn buttons_for(&self, note: &MidiMessageData) -> (buttons: ButtonSet)
        ensures
            buttons@ == self.spec_buttons(note.data_byte1),
    {
        match self {
            Mapping::Chromatic => {
                let mut buttons = ButtonSet::new();
                match Pitch::from_midi(note) {
                    Ok(pitch) => {
                        buttons.insert(pitch.button());
                    },
                    Err(_) => {},
                }
                assert(buttons@ =~= set![chromatic_button(note.data_byte1)]);
                buttons
            },
            Mapping::Direct(table) => table.lookup(note.data_byte1),
        }
    }

    /// The buttons of all held notes together.
    pub fn pressed(&self, notes: &Vec<MidiMessageData>) -> (buttons: ButtonSet)
        ensures
            buttons@ == self.spec_pressed(notes@),
    {
        let mut buttons = ButtonSet::new();
        let mut i: usize = 0;
        proof {
            lemma_pressed_empty(*self);
            assert(notes@.take(0) =~= Seq::<MidiMessageData>::empty());
        }
        while i < notes.len()
            invariant
                i <= notes.len(),
                buttons@ == self.spec_pressed(notes@.take(i as int)),
            decreases notes.len() - i,
        {
            let more = self.buttons_for(&notes[i]);
            proof {
                lemma_pressed_push(*self, notes@.take(i as int), notes@[i as int]);
                assert(notes@.take(i as int + 1) =~= notes@.take(i as int).push(notes@[i as int]));
            }
            buttons.union_with(&more);
            i += 1;
        }
        assert(notes@.take(notes.len() as int) =~= notes@);
        buttons
    }

    /// The button bytes for a set of held notes. Notes that stand for the
    /// same button, or for none, take nothing away from the others.
    pub fn report(&self, notes: &Vec<MidiMessageData>) -> (r: InputReport)
        ensures
            r.report@ == encode_spec(self.spec_pressed(notes@)),
    {
        let buttons = self.pressed(notes);
        InputReport::encode(&buttons)
    }
}

/// No held note presses no button.
pub proof fn lemma_pressed_empty(mapping: Mapping)
    ensures
        mapping.spec_pressed(Seq::<MidiMessageData>::empty()) == Set::<Button>::empty(),
{
    assert(mapping.spec_pressed(Seq::<MidiMessageData>::empty()) =~= Set::<Button>::empty());
}

/// One more held note adds its buttons to those already pressed and takes
/// none away.
pub proof fn lemma_pressed_push(mapping: Mapping, notes: Seq<MidiMessageData>, note: MidiMessageData)
    ensures
        mapping.spec_pressed(notes.push(note)) == mapping.spec_pressed(notes).union(
            mapping.spec_buttons(note.data_byte1),
        ),
{
    let more = notes.push(note);
    let lhs = mapping.spec_pressed(more);
    let rhs = mapping.spec_pressed(notes).union(mapping.spec_buttons(note.data_byte1));
    assert forall|b: Button| lhs.contains(b) implies rhs.contains(b) by {
        let i = choose|i: int|
            0 <= i < more.len() && mapping.spec_buttons((#[trigger] more[i]).data_byte1).contains(
                b,
            );
        if i < notes.len() {
            assert(notes[i] == more[i]);
        }
    }
    assert forall|b: Button| rhs.contains(b) implies lhs.contains(b) by {
        if mapping.spec_pressed(notes).contains(b) {
            let i = choose|i: int|
                0 <= i < notes.len() && mapping.spec_buttons(
                    (#[trigger] notes[i]).data_byte1,
                ).contains(b);
            assert(more[i] == notes[i]);
        } else {
            assert(more[notes.len() as int] == note);
        }
    }
    assert(lhs =~= rhs);
}

/// The pressed buttons depend on which note numbers are held, not on their
/// order, their number of entries, their channel or their velocity.
pub proof fn lemma_pressed_order_free(
    mapping: Mapping,
    x: Seq<MidiMessageData>,
    y: Seq<MidiMessageData>,
)
    requires
        forall|note: u8| crate::midi::holds_note(x, note) <==> crate::midi::holds_note(y, note),
    ensures
        mapping.spec_pressed(x) == mapping.spec_pressed(y),
{
    assert forall|b: Button| mapping.spec_pressed(x).contains(b) implies mapping.spec_pressed(
        y,
    ).contains(b) by {
        let i = choose|i: int|
            0 <= i < x.len() && mapping.spec_buttons((#[trigger] x[i]).data_byte1).contains(b);
        assert(crate::midi::holds_note(x, x[i].data_byte1));
        assert(crate::midi::holds_note(y, x[i].data_byte1));
    }
    assert forall|b: Button| mapping.spec_pressed(y).contains(b) implies mapping.spec_pressed(
        x,
    ).contains(b) by {
        let i = choose|i: int|
            0 <= i < y.len() && mapping.spec_buttons((#[trigger] y[i]).data_byte1).contains(b);
        assert(crate::midi::holds_note(y, y[i].data_byte1));
        assert(crate::midi::holds_note(x, y[i].data_byte1));
    }
    assert(mapping.spec_pressed(x) =~= mapping.spec_pressed(y));
}

/// After a note number is released, exactly the buttons of the other held
/// notes stay pressed.
pub proof fn lemma_pressed_after_release(
    mapping: Mapping,
    notes: Seq<MidiMessageData>,
    note: u8,
    b: Button,
)
    ensures
        mapping.spec_pressed(without_note(notes, note)).contains(b) <==> exists|i: int|
            0 <= i < notes.len() && (#[trigger] notes[i]).data_byte1 != note
                && mapping.spec_buttons(notes[i].data_byte1).contains(b),
{
    let keep = |m: MidiMessageData| m.data_byte1 != note;
    let rest = without_note(notes, note);
    if mapping.spec_pressed(rest).contains(b) {
        let j = choose|j: int|
            0 <= j < rest.len() && mapping.spec_buttons((#[trigger] rest[j]).data_byte1).contains(
                b,
            );
        notes.lemma_filter_contains_rev(keep, rest[j]);
        notes.lemma_filter_pred(keep, j);
        let i = choose|i: int| 0 <= i < notes.len() && notes[i] == rest[j];
        assert(notes[i].data_byte1 != note);
    }
    if exists|i: int|
        0 <= i < notes.len() && (#[trigger] notes[i]).data_byte1 != note && mapping.spec_buttons(
            notes[i].data_byte1,
        ).contains(b) {
        let i = choose|i: int|
            0 <= i < notes.len() && (#[trigger] notes[i]).data_byte1 != note
                && mapping.spec_buttons(notes[i].data_byte1).contains(b);
        notes.lemma_filter_contains(keep, i);
        assert(rest.contains(notes[i]));
        let j = choose|j: int| 0 <= j < rest.len() && rest[j] == notes[i];
        assert(mapping.spec_buttons(rest[j].data_byte1).contains(b));
    }
}

} // verus!
