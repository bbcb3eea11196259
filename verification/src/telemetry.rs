//! Telemetry consumer: rendering the desk's live height/speed updates.
//!
//! The desk's link produces an open-ended, order-preserving run of events;
//! unverified code awaits them one at a time and prints one line per event.
//! This module renders that line, and shows that consuming a run of events
//! keeps their arrival order, with no event skipped or duplicated.

use vstd::prelude::*;
use crate::decimal::{digit_seq, render_i16, render_u16, signed_digit_seq};

verus! {

/// One height/speed update from the desk: position in device units (tenths
/// of a millimeter), speed in the device's own unit.
#[derive(Clone, Copy, PartialEq, Eq, Structural, Debug)]
pub struct TelemetryEvent {
    pub position: u16,
    pub speed: i16,
}

/// `s` padded on the left with ASCII spaces to at least `w` bytes.
pub open spec fn padded(s: Seq<u8>, w: nat) -> Seq<u8> {
    if s.len() >= w {
        s
    } else {
        Seq::new((w - s.len()) as nat, |i: int| 32u8) + s
    }
}

/// The label before the position field: `pos: `.
pub open spec fn pos_label() -> Seq<u8> {
    seq![112u8, 111u8, 115u8, 58u8, 32u8]
}

/// The label between the fields: ` speed: `.
pub open spec fn speed_label() -> Seq<u8> {
    seq![32u8, 115u8, 112u8, 101u8, 101u8, 100u8, 58u8, 32u8]
}

/// The display line of one event: both numbers right-aligned to five bytes.
pub open spec fn render_line_spec(e: TelemetryEvent) -> Seq<u8> {
    pos_label() + padded(digit_seq(e.position as nat), 5) + speed_label() + padded(
        signed_digit_seq(e.speed as int),
        5,
    )
}

/// Left-pad `v` with spaces to at least `w` bytes.
fn pad_left(v: Vec<u8>, w: usize) -> (r: Vec<u8>)
    ensures
        r@ == padded(v@, w as nat),
{
    let mut tail = v;
    let n = tail.len();
    if n >= w {
        return tail;
    }
    let mut out: Vec<u8> = Vec::new();
    let mut i: usize = n;
    while i < w
        invariant
            n <= i <= w,
            n == tail@.len(),
            out@ == Seq::new((i - n) as nat, |j: int| 32u8),
        decreases w - i,
    {
        out.push(32);
        i = i + 1;
        proof {
            assert(out@ =~= Seq::new((i - n) as nat, |j: int| 32u8));
        }
    }
    out.append(&mut tail);
    out
}

/// Render one telemetry event as its display line.
pub fn render_line(e: &TelemetryEvent) -> (r: Vec<u8>)
    ensures
        r@ == render_line_spec(*e),
{
    let mut out: Vec<u8> = Vec::new();
    out.push(112);
    out.push(111);
    out.push(115);
    out.push(58);
    out.push(32);
    proof {
        assert(out@ =~= pos_label());
    }
    let mut pos_field = pad_left(render_u16(e.position), 5);
    out.append(&mut pos_field);
    let ghost head = out@;
    out.push(32);
    out.push(115);
    out.push(112);
    out.push(101);
    out.push(101);
    out.push(100);
    out.push(58);
    out.push(32);
    proof {
        assert(out@ =~= head + speed_label());
    }
    let mut speed_field = pad_left(render_i16(e.speed), 5);
    out.append(&mut speed_field);
    proof {
        assert(out@ =~= render_line_spec(*e));
    }
    out
}

/// Consume a finite run of telemetry events: one display line per event, in
/// arrival order, no event skipped, none duplicated.
pub fn consume_events(events: &Vec<TelemetryEvent>) -> (lines: Vec<Vec<u8>>)
    ensures
        lines@.len() == events@.len(),
        forall|i: int| 0 <= i < events@.len() ==> lines@[i]@ == render_line_spec(events@[i]),
{
    let mut lines: Vec<Vec<u8>> = Vec::new();
    let mut i: usize = 0;
    while i < events.len()
        invariant
            i <= events@.len(),
            lines@.len() == i,
            forall|j: int| 0 <= j < i ==> lines@[j]@ == render_line_spec(events@[j]),
        decreases events@.len() - i,
    {
        let line = render_line(&events[i]);
        lines.push(line);
        i = i + 1;
    }
    lines
}

} // verus!
