use vstd::prelude::*;
use crate::state::DISPLAY_SIZE;

verus! {

/// Bytes per pixel of a presented frame: red, green, blue, alpha.
pub const BYTES_PER_PIXEL: usize = 4;

/// The colour of one display cell: opaque white when on, opaque black when off.
pub open spec fn pixel_color(on: bool) -> Seq<u8> {
    if on {
        seq![0xFFu8, 0xFFu8, 0xFFu8, 0xFFu8]
    } else {
        seq![0x00u8, 0x00u8, 0x00u8, 0xFFu8]
    }
}

/// The display as an RGBA frame, one pixel per cell in row-major order.
pub fn render_frame(display: &[bool; DISPLAY_SIZE]) -> (r: Vec<u8>)
    ensures
        r@.len() == BYTES_PER_PIXEL * DISPLAY_SIZE,
        forall|b: int|
            0 <= b < r@.len() ==> #[trigger] r@[b] == pixel_color(display@[b / 4])[b % 4],
{
    let mut frame: Vec<u8> = Vec::with_capacity(BYTES_PER_PIXEL * DISPLAY_SIZE);
    let mut cell: usize = 0;
    while cell < DISPLAY_SIZE
        invariant
            cell <= DISPLAY_SIZE,
            frame@.len() == BYTES_PER_PIXEL * cell,
            forall|b: int|
                0 <= b < frame@.len() ==> #[trigger] frame@[b] == pixel_color(display@[b / 4])[b
                    % 4],
        decreases DISPLAY_SIZE - cell,
    {
        let level: u8 = if display[cell] { 0xFF } else { 0x00 };
        frame.push(level);
        frame.push(level);
        frame.push(level);
        frame.push(0xFF);
        proof {
            assert forall|b: int| 0 <= b < frame@.len() implies #[trigger] frame@[b]
                == pixel_color(display@[b / 4])[b % 4] by {
                if b >= 4 * cell {
                    assert(b / 4 == cell && b % 4 == b - 4 * cell);
                }
            }
        }
        cell += 1;
    }
    frame
}

/// The game picked by a 1-based menu choice among `count` games, as a
/// 0-based index; `None` where the choice is not on the menu.
pub fn game_index(choice: usize, count: usize) -> (r: Option<usize>)
    ensures
        r == if 1 <= choice <= count {
            Some((choice - 1) as usize)
        } else {
            None::<usize>
        },
{
    if choice > 0 && choice <= count {
        Some(choice - 1)
    } else {
        None
    }
}

} // verus!
