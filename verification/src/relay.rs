//! What the gadget loop does to a controller frame before it forwards it.
//!
//! A frame tagged as an input report carries the button bytes at offsets 3,
//! 4 and 5. When a snapshot of held notes is pending, those three bytes are
//! replaced by the buttons of the held notes. Nothing else is ever changed.

use crate::mapping::Mapping;
use crate::midi::MidiMessageData;
use crate::nscontroller::{encode_spec, InputReport};
use vstd::prelude::*;

verus! {

/// First byte of a frame that is an input report.
pub const INPUT_REPORT_TAG: u8 = 0x30;

/// Offset of the first of the three button bytes in an input report.
pub const BUTTON_BYTES_OFFSET: usize = 3;

/// A frame is an input report when its first byte is the tag and it is long
/// enough to hold the button bytes.
pub open spec fn is_input_report(frame: Seq<u8>) -> bool {
    frame.len() >= 6 && frame[0] == 0x30
}

/// The frame with its three button bytes replaced.
pub open spec fn with_buttons(frame: Seq<u8>, bytes: Seq<u8>) -> Seq<u8> {
    frame.update(3, bytes[0]).update(4, bytes[1]).update(5, bytes[2])
}

/// The frame that is forwarded: an input report with a pending snapshot gets
/// the buttons of the held notes, every other frame goes on as it came.
pub open spec fn merged_frame(
    mapping: Mapping,
    frame: Seq<u8>,
    pending: Option<Seq<MidiMessageData>>,
) -> Seq<u8> {
    match pending {
        Some(notes) => if is_input_report(frame) {
            with_buttons(frame, encode_spec(mapping.spec_pressed(notes)))
        } else {
            frame
        },
        None => frame,
    }
}

/// Whether a frame is an input report, so that a pending snapshot is to be
/// looked for. For any other frame the snapshot channel is left alone.
pub fn wants_snapshot(frame: &Vec<u8>) -> (r: bool)
    ensures
        r == is_input_report(frame@),
{
    frame.len() >= BUTTON_BYTES_OFFSET + 3 && frame[0] == INPUT_REPORT_TAG
}

/// Writes the three button bytes into a frame that has room for them; a
/// shorter frame is handed back untouched.
pub fn overwrite_buttons(frame: Vec<u8>, report: &InputReport) -> (r: Vec<u8>)
    ensures
        frame@.len() >= 6 ==> r@ == with_buttons(frame@, report.report@),
        frame@.len() < 6 ==> r@ == frame@,
{
    let mut out = frame;
    if out.len() >= BUTTON_BYTES_OFFSET + 3 {
        out[BUTTON_BYTES_OFFSET] = report.report[0];
        out[BUTTON_BYTES_OFFSET + 1] = report.report[1];
        out[BUTTON_BYTES_OFFSET + 2] = report.report[2];
    }
    out
}

/// Prepares one controller frame for the gadget. `pending` is the snapshot
/// of held notes that was waiting, if any.
pub fn merge_frame(mapping: &Mapping, frame: Vec<u8>, pending: Option<Vec<MidiMessageData>>) -> (r:
    Vec<u8>)
    ensures
        r@ == merged_frame(
            *mapping,
            frame@,
            match pending {
                Some(notes) => Some(notes@),
                None => None,
            },
        ),
        r@.len() == frame@.len(),
        forall|i: int| 0 <= i < frame@.len() && !(3 <= i < 6) ==> r@[i] == frame@[i],
        !is_input_report(frame@) ==> r@ == frame@,
{
    match pending {
        Some(notes) => {
            if wants_snapshot(&frame) {
                let report = mapping.report(&notes);
                overwrite_buttons(frame, &report)
            } else {
                frame
            }
        },
        None => frame,
    }
}

/// A frame whose first byte is not the input-report tag is forwarded byte
/// for byte, whatever snapshot is pending.
pub proof fn lemma_untagged_passes_through(
    mapping: Mapping,
    frame: Seq<u8>,
    pending: Option<Seq<MidiMessageData>>,
)
    requires
        frame.len() == 0 || frame[0] != 0x30,
    ensures
        merged_frame(mapping, frame, pending) == frame,
{
}

/// Merging never changes a frame's length, nor any byte but the three
/// button bytes.
pub proof fn lemma_merge_touches_buttons_only(
    mapping: Mapping,
    frame: Seq<u8>,
    pending: Option<Seq<MidiMessageData>>,
    i: int,
)
    requires
        0 <= i < frame.len(),
        !(3 <= i < 6),
    ensures
        merged_frame(mapping, frame, pending).len() == frame.len(),
        merged_frame(mapping, frame, pending)[i] == frame[i],
{
}

/// In a merged input report the button bytes hold exactly the encoding of
/// the held notes' buttons.
pub proof fn lemma_merge_writes_encoding(
    mapping: Mapping,
    frame: Seq<u8>,
    notes: Seq<MidiMessageData>,
)
    requires
        is_input_report(frame),
    ensures
        merged_frame(mapping, frame, Some(notes)).subrange(3, 6) == encode_spec(
            mapping.spec_pressed(notes),
        ),
{
    assert(merged_frame(mapping, frame, Some(notes)).subrange(3, 6) =~= encode_spec(
        mapping.spec_pressed(notes),
    ));
}

} // verus!
