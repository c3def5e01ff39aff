//! The region selector: an interactive state machine that turns a
//! primary-pointer drag over a frozen screen snapshot into a normalized
//! capture rectangle, or into nothing on the abort key.

use vstd::prelude::*;
use crate::config::Config;
use crate::geometry::Rect;

verus! {

/// A pointer position in logical coordinates.
#[derive(Debug, Clone, Copy, PartialEq, Eq)]
pub struct Pos {
    pub x: i32,
    pub y: i32,
}

/// The drag in progress: either no start position has been recorded yet,
/// or the start is set and stays sticky until the drag ends.
#[derive(Debug, Clone, Copy, PartialEq, Eq)]
pub enum SelectorState {
    Idle,
    Dragging { start: Pos },
}

/// One input event the selector reacts to. Pointer motion between press
/// and release only moves the live preview; the rectangle is fixed by the
/// positions of the press and of the release.
#[derive(Debug, Clone, Copy, PartialEq, Eq)]
pub enum SelectorEvent {
    PointerDown(Pos),
    PointerUp(Pos),
    Abort,
}

/// A finished drag: the rectangle's top-left corner and its size, both in
/// logical coordinates.
#[derive(Debug, Clone, Copy, PartialEq, Eq)]
pub struct Selection {
    pub x: i32,
    pub y: i32,
    pub width: u32,
    pub height: u32,
}

/// What one step of the selector produced: nothing yet, a cancelled
/// session, or a finished selection.
#[derive(Debug, Clone, Copy, PartialEq, Eq)]
pub enum SelectorStep {
    Pending,
    Cancelled,
    Selected(Selection),
}

/// The axis-aligned bounding box of two corner points, normalized so that
/// the drag direction does not matter. A zero-area box (equal corners) is
/// a valid selection.
pub open spec fn spec_bounding_box(a: Pos, b: Pos) -> Selection {
    Selection {
        x: if a.x <= b.x { a.x } else { b.x },
        y: if a.y <= b.y { a.y } else { b.y },
        width: (if a.x <= b.x { b.x - a.x } else { a.x - b.x }) as u32,
        height: (if a.y <= b.y { b.y - a.y } else { a.y - b.y }) as u32,
    }
}

/// One transition of the selector: an abort cancels from any state, the
/// first press records the sticky start, a later press is a no-op, and a
/// release with a recorded start finalizes the bounding box of start and
/// release position.
pub open spec fn spec_selector_step(st: SelectorState, ev: SelectorEvent) -> (SelectorState, SelectorStep) {
    match ev {
        SelectorEvent::Abort => (SelectorState::Idle, SelectorStep::Cancelled),
        SelectorEvent::PointerDown(p) => match st {
            SelectorState::Idle => (SelectorState::Dragging { start: p }, SelectorStep::Pending),
            SelectorState::Dragging { start } => (st, SelectorStep::Pending),
        },
        SelectorEvent::PointerUp(p) => match st {
            SelectorState::Idle => (SelectorState::Idle, SelectorStep::Pending),
            SelectorState::Dragging { start } => (
                SelectorState::Idle,
                SelectorStep::Selected(spec_bounding_box(start, p)),
            ),
        },
    }
}

/// The normalized bounding box of two corner points.
pub fn bounding_box(a: Pos, b: Pos) -> (s: Selection)
    ensures
        s == spec_bounding_box(a, b),
{
    let x: i32 = if a.x <= b.x { a.x } else { b.x };
    let y: i32 = if a.y <= b.y { a.y } else { b.y };
    let width: u32 = if a.x <= b.x {
        (b.x as i64 - a.x as i64) as u32
    } else {
        (a.x as i64 - b.x as i64) as u32
    };
    let height: u32 = if a.y <= b.y {
        (b.y as i64 - a.y as i64) as u32
    } else {
        (a.y as i64 - b.y as i64) as u32
    };
    Selection { x, y, width, height }
}

/// Feed one event to the selector.
pub fn selector_step(st: &mut SelectorState, ev: SelectorEvent) -> (r: SelectorStep)
    ensures
        (*final(st), r) == spec_selector_step(*old(st), ev),
{
    match ev {
        SelectorEvent::Abort => {
            *st = SelectorState::Idle;
            SelectorStep::Cancelled
        },
        SelectorEvent::PointerDown(p) => {
            match *st {
                SelectorState::Idle => {
                    *st = SelectorState::Dragging { start: p };
                },
                SelectorState::Dragging { start } => {},
            }
            SelectorStep::Pending
        },
        SelectorEvent::PointerUp(p) => {
            match *st {
                SelectorState::Idle => SelectorStep::Pending,
                SelectorState::Dragging { start } => {
                    *st = SelectorState::Idle;
                    SelectorStep::Selected(bounding_box(start, p))
                },
            }
        },
    }
}

/// Write a finished selection into the configuration, paired with the
/// display's pixel density; a pending or cancelled step leaves the stored
/// capture area (and every other field) untouched.
pub fn apply_selection(config: &mut Config, step: &SelectorStep, scale_milli: u32)
    ensures
        match *step {
            SelectorStep::Selected(s) => final(config).capture_area == Some(
                Rect {
                    x: s.x,
                    y: s.y,
                    width: s.width,
                    height: s.height,
                    scale_milli: scale_milli,
                },
            ),
            _ => final(config).capture_area == old(config).capture_area,
        },
        final(config).schedule_times@ == old(config).schedule_times@,
        final(config).save_directory@ == old(config).save_directory@,
        final(config).base_filename == old(config).base_filename,
{
    match step {
        SelectorStep::Selected(s) => {
            config.capture_area = Some(
                Rect {
                    x: s.x,
                    y: s.y,
                    width: s.width,
                    height: s.height,
                    scale_milli: scale_milli,
                },
            );
        },
        _ => {},
    }
}

/// Dragging from one corner to the other yields the axis-aligned bounding
/// box of the two points, and the same box comes out whichever of the two
/// corners the drag started from.
pub proof fn lemma_drag_yields_bounding_box(p1: Pos, p2: Pos)
    ensures
        ({
            let (mid, _) = spec_selector_step(SelectorState::Idle, SelectorEvent::PointerDown(p1));
            spec_selector_step(mid, SelectorEvent::PointerUp(p2)).1
                == SelectorStep::Selected(spec_bounding_box(p1, p2))
        }),
        spec_bounding_box(p1, p2) == spec_bounding_box(p2, p1),
{
}

/// An abort signal before the pointer release produces no rectangle, from
/// any state of the drag: the step is `Cancelled`, never `Selected`, so a
/// caller that applies it leaves the prior capture area unchanged.
pub proof fn lemma_cancel_produces_no_rectangle(st: SelectorState)
    ensures
        spec_selector_step(st, SelectorEvent::Abort).1 == SelectorStep::Cancelled,
        spec_selector_step(st, SelectorEvent::Abort).0 == SelectorState::Idle,
{
}

} // verus!
