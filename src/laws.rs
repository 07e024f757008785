use vstd::prelude::*;
use crate::error::Chip8Error;
use crate::opcode::{decode_spec, Opcode};
use crate::state::{
    advanced, blank_display, cell_of, col_at, drawn_display, fetch_spec, lemma_cell_of_pixel,
    lemma_pixel_of_cell, row_at, span_fits, sprite_bit, sprite_covers, step_spec, MachineState,
    DISPLAY_SIZE, FLAG_REGISTER, MEMORY_SIZE, NUM_REGISTERS, STACK_SIZE,
};

verus! {

/// Some bit of the `n`-row sprite at `sprite` is set.
pub open spec fn sprite_nonempty(memory: Seq<u8>, sprite: u16, n: u8) -> bool {
    exists|r: int, c: int| 0 <= r < n && 0 <= c < 8 && #[trigger] sprite_bit(memory[sprite + r], c)
}

/// Drawing a sprite twice at the same place leaves the display as it was:
/// each cell the sprite covers is toggled twice, every other cell never.
pub proof fn lemma_redraw_restores(s: MachineState, x: u8, y: u8, n: u8)
    requires
        s.wf(),
        x < NUM_REGISTERS,
        y < NUM_REGISTERS,
        x != FLAG_REGISTER,
        y != FLAG_REGISTER,
        n < 16,
        n == 0 || span_fits(s.i as int, n as int),
    ensures
        step_spec(s, Opcode::DRW_Vx_Vy_nibble(x, y, n), 0) is Ok,
        step_spec(step_spec(s, Opcode::DRW_Vx_Vy_nibble(x, y, n), 0)->Ok_0, Opcode::DRW_Vx_Vy_nibble(x, y, n), 0) is Ok,
        step_spec(step_spec(s, Opcode::DRW_Vx_Vy_nibble(x, y, n), 0)->Ok_0, Opcode::DRW_Vx_Vy_nibble(x, y, n), 0)->Ok_0.display
            == s.display,
{
    let once = step_spec(s, Opcode::DRW_Vx_Vy_nibble(x, y, n), 0)->Ok_0;
    let twice = step_spec(once, Opcode::DRW_Vx_Vy_nibble(x, y, n), 0)->Ok_0;
    assert(once.v[x as int] == s.v[x as int] && once.v[y as int] == s.v[y as int]);
    assert(twice.display =~= s.display);
}

/// Erase by redraw: after a clear, drawing a sprite and drawing it again at
/// the same place gives a blank display, and the second draw reports a
/// collision exactly when the sprite has a set bit.
pub proof fn lemma_clear_draw_redraw(s: MachineState, x: u8, y: u8, n: u8)
    requires
        s.wf(),
        x < NUM_REGISTERS,
        y < NUM_REGISTERS,
        x != FLAG_REGISTER,
        y != FLAG_REGISTER,
        n < 16,
        n == 0 || span_fits(s.i as int, n as int),
    ensures
        ({
            let cleared = step_spec(s, Opcode::CLS, 0)->Ok_0;
            let once = step_spec(cleared, Opcode::DRW_Vx_Vy_nibble(x, y, n), 0)->Ok_0;
            let twice = step_spec(once, Opcode::DRW_Vx_Vy_nibble(x, y, n), 0);
            &&& step_spec(s, Opcode::CLS, 0) is Ok
            &&& step_spec(cleared, Opcode::DRW_Vx_Vy_nibble(x, y, n), 0) is Ok
            &&& twice is Ok
            &&& twice->Ok_0.display == blank_display()
            &&& (twice->Ok_0.v[FLAG_REGISTER as int] == 1 <==> sprite_nonempty(s.memory, s.i, n))
            &&& (twice->Ok_0.v[FLAG_REGISTER as int] == 0 <==> !sprite_nonempty(s.memory, s.i, n))
        }),
{
    let cleared = step_spec(s, Opcode::CLS, 0)->Ok_0;
    lemma_redraw_restores(cleared, x, y, n);
    let once = step_spec(cleared, Opcode::DRW_Vx_Vy_nibble(x, y, n), 0)->Ok_0;
    let twice = step_spec(once, Opcode::DRW_Vx_Vy_nibble(x, y, n), 0)->Ok_0;
    let (left, top) = (s.v[x as int], s.v[y as int]);
    assert(once.v[x as int] == left && once.v[y as int] == top);
    assert(once.display == drawn_display(blank_display(), s.memory, s.i, n, left, top));
    if sprite_nonempty(s.memory, s.i, n) {
        let (r, c) = choose|r: int, c: int|
            0 <= r < n && 0 <= c < 8 && #[trigger] sprite_bit(s.memory[s.i + r], c);
        lemma_cell_of_pixel(left, top, r, c);
        let cell = cell_of(left, top, r, c);
        assert(sprite_covers(s.memory, s.i, n, left, top, cell));
        assert(once.display[cell]);
    } else {
        assert forall|cell: int|
            0 <= cell < DISPLAY_SIZE implies !#[trigger] sprite_covers(
                s.memory,
                s.i,
                n,
                left,
                top,
                cell,
            ) by {
            lemma_pixel_of_cell(left, top, cell);
            if sprite_covers(s.memory, s.i, n, left, top, cell) {
                assert(sprite_bit(s.memory[s.i + row_at(top, cell)], col_at(left, cell)));
            }
        }
    }
}

/// The machine after a subroutine call to each address of `targets` in turn.
pub open spec fn call_each(s: MachineState, targets: Seq<u16>) -> Result<MachineState, Chip8Error>
    decreases targets.len(),
{
    if targets.len() == 0 {
        Ok(s)
    } else {
        match call_each(s, targets.drop_last()) {
            Ok(t) => step_spec(t, Opcode::CALL(targets.last()), 0),
            Err(e) => Err(e),
        }
    }
}

/// Calls to addresses in memory succeed as long as the stack has room, each
/// one a level deeper.
pub proof fn lemma_calls_deepen(s: MachineState, targets: Seq<u16>)
    requires
        s.wf(),
        s.sp + targets.len() <= STACK_SIZE,
        forall|k: int| 0 <= k < targets.len() ==> #[trigger] targets[k] < MEMORY_SIZE,
    ensures
        call_each(s, targets) is Ok,
        call_each(s, targets)->Ok_0.wf(),
        call_each(s, targets)->Ok_0.sp == s.sp + targets.len(),
    decreases targets.len(),
{
    if targets.len() > 0 {
        lemma_calls_deepen(s, targets.drop_last());
    }
}

/// The stack is sixteen deep: from an empty stack sixteen calls without a
/// return succeed and a seventeenth overflows; a return with an empty stack
/// underflows.
pub proof fn lemma_stack_depth(s: MachineState, targets: Seq<u16>, next: u16)
    requires
        s.wf(),
        s.sp == 0,
        targets.len() == STACK_SIZE,
        forall|k: int| 0 <= k < targets.len() ==> #[trigger] targets[k] < MEMORY_SIZE,
    ensures
        call_each(s, targets) is Ok,
        call_each(s, targets.push(next)) == Err::<MachineState, Chip8Error>(
            Chip8Error::StackOverflow,
        ),
        step_spec(s, Opcode::RET, 0) == Err::<MachineState, Chip8Error>(
            Chip8Error::StackUnderflow,
        ),
{
    lemma_calls_deepen(s, targets);
    assert(targets.push(next).drop_last() == targets);
}

/// One step on the clear-display word blanks the display and moves the
/// counter on by exactly one instruction, changing nothing else.
pub proof fn lemma_step_clear(s: MachineState)
    requires
        s.wf(),
        fetch_spec(s) == Some(0x00E0u16),
    ensures
        decode_spec(0x00E0) == Opcode::CLS,
        step_spec(advanced(s), decode_spec(0x00E0), 0) == Ok::<MachineState, Chip8Error>(
            MachineState { display: blank_display(), pc: (s.pc + 2) as u16, ..s },
        ),
{
}

} // verus!
