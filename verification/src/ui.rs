//! Which frame a player shows, and how its buttons move it.

use vstd::prelude::*;

verus! {

/// What the buttons of the player ask for.
#[derive(Debug, Clone, Copy, PartialEq, Eq, Structural)]
pub enum Message {
    NextFrame,
    PrevFrame,
}

/// The position after a button was pressed: one frame on unless the last
/// frame is shown, one frame back unless the first is.
pub open spec fn stepped(value: u32, frame_count: usize, message: Message) -> u32 {
    match message {
        Message::NextFrame => if value + 1 < frame_count && value < u32::MAX {
            (value + 1) as u32
        } else {
            value
        },
        Message::PrevFrame => if value > 0 {
            (value - 1) as u32
        } else {
            value
        },
    }
}

/// The frame shown at a position: the position itself, or the last frame
/// where the position lies behind it.
pub open spec fn shown_frame(value: u32, frame_count: usize) -> int {
    if value < frame_count {
        value as int
    } else {
        frame_count - 1
    }
}

/// Moves the position as the button asks.
pub fn update(value: u32, frame_count: usize, message: Message) -> (next: u32)
    ensures
        next == stepped(value, frame_count, message),
{
    match message {
        Message::NextFrame => {
            if value < u32::MAX && ((value + 1) as u64) < frame_count as u64 {
                value + 1
            } else {
                value
            }
        },
        Message::PrevFrame => {
            if value > 0 {
                value - 1
            } else {
                value
            }
        },
    }
}

/// The index of the frame to show at a position in a video that has
/// frames.
pub fn frame_to_show(value: u32, frame_count: usize) -> (index: usize)
    requires
        frame_count > 0,
    ensures
        index == shown_frame(value, frame_count),
        index < frame_count,
{
    if (value as u64) < frame_count as u64 {
        value as usize
    } else {
        frame_count - 1
    }
}

} // verus!
