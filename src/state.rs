use vstd::prelude::*;
use vstd::arithmetic::div_mod::{lemma_fundamental_div_mod, lemma_fundamental_div_mod_converse};
use crate::error::Chip8Error;
use crate::opcode::{decode_spec, Opcode};

verus! {

/// Bytes in the address space.
pub const MEMORY_SIZE: usize = 4096;
/// Where a program image is loaded, above the reserved low region.
pub const PROGRAM_START: u16 = 0x200;
/// The largest program image: the address space above the reserved region.
pub const MAX_PROGRAM_SIZE: usize = 4096 - 0x200;
/// General byte registers.
pub const NUM_REGISTERS: usize = 16;
/// The register that carries carry, borrow, shifted-out bit and collision.
pub const FLAG_REGISTER: usize = 15;
/// Slots of the call stack.
pub const STACK_SIZE: usize = 16;
/// Keys of the keypad.
pub const NUM_KEYS: usize = 16;
/// Display columns.
pub const DISPLAY_WIDTH: usize = 64;
/// Display rows.
pub const DISPLAY_HEIGHT: usize = 32;
/// Display cells, row-major.
pub const DISPLAY_SIZE: usize = 2048;

/// The whole machine as mathematical values.
#[verifier::ext_equal]
pub ghost struct MachineState {
    pub memory: Seq<u8>,
    pub v: Seq<u8>,
    pub i: u16,
    pub pc: u16,
    pub stack: Seq<u16>,
    pub sp: u8,
    pub delay_timer: u8,
    pub sound_timer: u8,
    pub display: Seq<bool>,
    pub keys: Seq<bool>,
}

impl MachineState {
    /// Every store has its fixed size and the stack pointer is within the stack.
    pub open spec fn wf(self) -> bool {
        &&& self.memory.len() == MEMORY_SIZE
        &&& self.v.len() == NUM_REGISTERS
        &&& self.stack.len() == STACK_SIZE
        &&& self.sp <= STACK_SIZE
        &&& self.display.len() == DISPLAY_SIZE
        &&& self.keys.len() == NUM_KEYS
    }

    /// General register `x`.
    pub open spec fn reg(self, x: u8) -> u8 {
        self.v[x as int]
    }

    /// Writes `val` to register `x`.
    pub open spec fn set_reg(self, x: u8, val: u8) -> MachineState {
        MachineState { v: self.v.update(x as int, val), ..self }
    }

    /// Writes `val` to register `x`, then `flag` to the flag register.
    pub open spec fn set_reg_flag(self, x: u8, val: u8, flag: u8) -> MachineState {
        MachineState { v: self.v.update(x as int, val).update(FLAG_REGISTER as int, flag), ..self }
    }

    /// Sets the program counter.
    pub open spec fn set_pc(self, pc: int) -> MachineState {
        MachineState { pc: pc as u16, ..self }
    }
}

/// A display with every cell off.
pub open spec fn blank_display() -> Seq<bool> {
    Seq::new(DISPLAY_SIZE as nat, |c: int| false)
}

/// A fresh machine: everything zeroed, the counter at the program start.
pub open spec fn initial_state() -> MachineState {
    MachineState {
        memory: Seq::new(MEMORY_SIZE as nat, |a: int| 0u8),
        v: Seq::new(NUM_REGISTERS as nat, |k: int| 0u8),
        i: 0,
        pc: PROGRAM_START,
        stack: Seq::new(STACK_SIZE as nat, |k: int| 0u16),
        sp: 0,
        delay_timer: 0,
        sound_timer: 0,
        display: blank_display(),
        keys: Seq::new(NUM_KEYS as nat, |k: int| false),
    }
}

/// A fresh machine with `program` copied to memory from the program start.
pub open spec fn loaded_state(program: Seq<u8>) -> MachineState {
    let s = initial_state();
    MachineState {
        memory: Seq::new(
            MEMORY_SIZE as nat,
            |a: int|
                if PROGRAM_START <= a < PROGRAM_START + program.len() {
                    program[a - PROGRAM_START]
                } else {
                    0u8
                },
        ),
        ..s
    }
}

/// The instruction word at the counter, most significant byte first, or
/// `None` where its second byte lies past the end of memory.
pub open spec fn fetch_spec(s: MachineState) -> Option<u16> {
    if s.pc + 1 < MEMORY_SIZE {
        Some((s.memory[s.pc as int] * 0x100 + s.memory[s.pc + 1]) as u16)
    } else {
        None
    }
}

/// The counter moved past the instruction just fetched.
pub open spec fn advanced(s: MachineState) -> MachineState {
    s.set_pc(s.pc + 2)
}

/// Moves the counter past the next instruction where `cond` holds; a
/// target outside the address space is a fault.
pub open spec fn skip_if(s: MachineState, cond: bool) -> Result<MachineState, Chip8Error> {
    if !cond {
        Ok(s)
    } else if s.pc + 2 >= MEMORY_SIZE {
        Err(Chip8Error::InvalidMemoryAccess((s.pc + 2) as usize))
    } else {
        Ok(s.set_pc(s.pc + 2))
    }
}

/// A jump to `target`, a fault where it lies outside the address space.
pub open spec fn jump_to(s: MachineState, target: int) -> Result<MachineState, Chip8Error> {
    if target >= MEMORY_SIZE {
        Err(Chip8Error::InvalidMemoryAccess(target as usize))
    } else {
        Ok(s.set_pc(target))
    }
}

/// `len` bytes from `start` lie in memory.
pub open spec fn span_fits(start: int, len: int) -> bool {
    start + len <= MEMORY_SIZE
}

/// The fault for a span that does not fit: its last address.
pub open spec fn span_fault(start: int, len: int) -> Chip8Error {
    Chip8Error::InvalidMemoryAccess((start + len - 1) as usize)
}

/// Bit `col` of a sprite row, counted from the most significant bit.
pub open spec fn sprite_bit(row: u8, col: int) -> bool {
    row & (0x80u8 >> (col as u8)) != 0
}

/// The sprite row that reaches display cell `cell` when the sprite's top
/// edge is at `top`, counting rows downward with wraparound.
pub open spec fn row_at(top: u8, cell: int) -> int {
    (cell / DISPLAY_WIDTH as int - top) % DISPLAY_HEIGHT as int
}

/// The sprite column that reaches display cell `cell` when the sprite's
/// left edge is at `left`, counting columns rightward with wraparound.
pub open spec fn col_at(left: u8, cell: int) -> int {
    (cell % DISPLAY_WIDTH as int - left) % DISPLAY_WIDTH as int
}

/// A set bit of the `n`-row sprite at `sprite` lands on `cell` when the
/// sprite's corner is at `(left, top)`.
pub open spec fn sprite_covers(
    memory: Seq<u8>,
    sprite: u16,
    n: u8,
    left: u8,
    top: u8,
    cell: int,
) -> bool {
    let r = row_at(top, cell);
    let c = col_at(left, cell);
    r < n && c < 8 && sprite_bit(memory[sprite + r], c)
}

/// The display after the sprite is XORed onto it.
pub open spec fn drawn_display(
    display: Seq<bool>,
    memory: Seq<u8>,
    sprite: u16,
    n: u8,
    left: u8,
    top: u8,
) -> Seq<bool> {
    Seq::new(
        DISPLAY_SIZE as nat,
        |cell: int| display[cell] != sprite_covers(memory, sprite, n, left, top, cell),
    )
}

/// Some set bit of the sprite lands on a cell that is on: drawing turns it off.
pub open spec fn draw_collides(
    display: Seq<bool>,
    memory: Seq<u8>,
    sprite: u16,
    n: u8,
    left: u8,
    top: u8,
) -> bool {
    exists|cell: int|
        0 <= cell < DISPLAY_SIZE && display[cell] && #[trigger] sprite_covers(
            memory,
            sprite,
            n,
            left,
            top,
            cell,
        )
}

/// The display cell that row `row`, column `col` of a sprite with its
/// corner at `(left, top)` lands on.
pub open spec fn cell_of(left: u8, top: u8, row: int, col: int) -> int {
    ((top + row) % DISPLAY_HEIGHT as int) * DISPLAY_WIDTH as int + (left + col)
        % DISPLAY_WIDTH as int
}

/// A sprite pixel lands on a cell of the display, and that cell leads back
/// to the pixel's row and column.
pub proof fn lemma_cell_of_pixel(left: u8, top: u8, row: int, col: int)
    requires
        0 <= row < DISPLAY_HEIGHT,
        0 <= col < DISPLAY_WIDTH,
    ensures
        0 <= cell_of(left, top, row, col) < DISPLAY_SIZE,
        row_at(top, cell_of(left, top, row, col)) == row,
        col_at(left, cell_of(left, top, row, col)) == col,
{
    let cy = (top + row) % 32;
    let cx = (left + col) % 64;
    let cell = cell_of(left, top, row, col);
    lemma_fundamental_div_mod_converse(cell, 64, cy, cx);
    lemma_fundamental_div_mod(top + row, 32);
    lemma_fundamental_div_mod_converse(cy - top, 32, -((top + row) / 32), row);
    lemma_fundamental_div_mod(left + col, 64);
    lemma_fundamental_div_mod_converse(cx - left, 64, -((left + col) / 64), col);
}

/// Every display cell is the landing cell of its own sprite row and column.
pub proof fn lemma_pixel_of_cell(left: u8, top: u8, cell: int)
    requires
        0 <= cell < DISPLAY_SIZE,
    ensures
        0 <= row_at(top, cell) < DISPLAY_HEIGHT,
        0 <= col_at(left, cell) < DISPLAY_WIDTH,
        cell_of(left, top, row_at(top, cell), col_at(left, cell)) == cell,
{
    let cy = cell / 64;
    let cx = cell % 64;
    lemma_fundamental_div_mod(cell, 64);
    assert(0 <= cy < 32) by (nonlinear_arith)
        requires
            cell == 64 * cy + cx,
            0 <= cx < 64,
            0 <= cell < 2048,
    ;
    let r = row_at(top, cell);
    let c = col_at(left, cell);
    lemma_fundamental_div_mod(cy - top, 32);
    lemma_fundamental_div_mod_converse(top + r, 32, -((cy - top) / 32), cy);
    lemma_fundamental_div_mod(cx - left, 64);
    lemma_fundamental_div_mod_converse(left + c, 64, -((cx - left) / 64), cx);
}

/// Some key is held down.
pub open spec fn any_key_pressed(keys: Seq<bool>) -> bool {
    exists|k: int| 0 <= k < NUM_KEYS && #[trigger] keys[k]
}

/// The lowest-numbered key that is held down.
pub open spec fn lowest_pressed(keys: Seq<bool>) -> int {
    choose|k: int| 0 <= k < NUM_KEYS && keys[k] && forall|j: int| 0 <= j < k ==> !#[trigger] keys[j]
}

/// The hundreds, tens and ones digits of `val`.
pub open spec fn decimal_digits(val: u8) -> Seq<u8> {
    seq![val / 100, (val / 10) % 10, val % 10]
}

/// The fault for register index `x`, which is out of range.
pub open spec fn reg_fault(x: u8) -> Chip8Error {
    Chip8Error::InvalidRegister(x)
}

/// What one operation does to the machine, the counter already moved past
/// it, or the fault it raises; `rnd` is the random byte that `RND` draws.
pub open spec fn step_spec(s: MachineState, op: Opcode, rnd: u8) -> Result<MachineState, Chip8Error> {
    match op {
        Opcode::CLS => Ok(MachineState { display: blank_display(), ..s }),
        Opcode::RET => if s.sp == 0 {
            Err(Chip8Error::StackUnderflow)
        } else {
            Ok(MachineState { sp: (s.sp - 1) as u8, pc: s.stack[s.sp - 1], ..s })
        },
        Opcode::SYS(_) => Ok(s),
        Opcode::JP(a) => jump_to(s, a as int),
        Opcode::CALL(a) => if s.sp == STACK_SIZE {
            Err(Chip8Error::StackOverflow)
        } else if a >= MEMORY_SIZE {
            Err(Chip8Error::InvalidMemoryAccess(a as usize))
        } else {
            Ok(MachineState { stack: s.stack.update(s.sp as int, s.pc), sp: (s.sp + 1) as u8, pc: a, ..s })
        },
        Opcode::SE_Vx_byte(x, kk) => if x >= NUM_REGISTERS {
            Err(reg_fault(x))
        } else {
            skip_if(s, s.reg(x) == kk)
        },
        Opcode::SNE_Vx_byte(x, kk) => if x >= NUM_REGISTERS {
            Err(reg_fault(x))
        } else {
            skip_if(s, s.reg(x) != kk)
        },
        Opcode::SE_Vx_Vy(x, y) => if x >= NUM_REGISTERS {
            Err(reg_fault(x))
        } else if y >= NUM_REGISTERS {
            Err(reg_fault(y))
        } else {
            skip_if(s, s.reg(x) == s.reg(y))
        },
        Opcode::LD_Vx_byte(x, kk) => if x >= NUM_REGISTERS {
            Err(reg_fault(x))
        } else {
            Ok(s.set_reg(x, kk))
        },
        Opcode::ADD_Vx_byte(x, kk) => if x >= NUM_REGISTERS {
            Err(reg_fault(x))
        } else {
            Ok(s.set_reg(x, ((s.reg(x) + kk) % 256) as u8))
        },
        Opcode::LD_Vx_Vy(x, y) => if x >= NUM_REGISTERS {
            Err(reg_fault(x))
        } else if y >= NUM_REGISTERS {
            Err(reg_fault(y))
        } else {
            Ok(s.set_reg(x, s.reg(y)))
        },
        Opcode::OR_Vx_Vy(x, y) => if x >= NUM_REGISTERS {
            Err(reg_fault(x))
        } else if y >= NUM_REGISTERS {
            Err(reg_fault(y))
        } else {
            Ok(s.set_reg(x, s.reg(x) | s.reg(y)))
        },
        Opcode::AND_Vx_Vy(x, y) => if x >= NUM_REGISTERS {
            Err(reg_fault(x))
        } else if y >= NUM_REGISTERS {
            Err(reg_fault(y))
        } else {
            Ok(s.set_reg(x, s.reg(x) & s.reg(y)))
        },
        Opcode::XOR_Vx_Vy(x, y) => if x >= NUM_REGISTERS {
            Err(reg_fault(x))
        } else if y >= NUM_REGISTERS {
            Err(reg_fault(y))
        } else {
            Ok(s.set_reg(x, s.reg(x) ^ s.reg(y)))
        },
        Opcode::ADD_Vx_Vy(x, y) => if x >= NUM_REGISTERS {
            Err(reg_fault(x))
        } else if y >= NUM_REGISTERS {
            Err(reg_fault(y))
        } else {
            let sum = s.reg(x) + s.reg(y);
            Ok(s.set_reg_flag(x, (sum % 256) as u8, if sum > 255 { 1 } else { 0 }))
        },
        Opcode::SUB_Vx_Vy(x, y) => if x >= NUM_REGISTERS {
            Err(reg_fault(x))
        } else if y >= NUM_REGISTERS {
            Err(reg_fault(y))
        } else {
            let (a, b) = (s.reg(x), s.reg(y));
            Ok(s.set_reg_flag(x, ((a - b) % 256) as u8, if a >= b { 1 } else { 0 }))
        },
        Opcode::SHR_Vx(x) => if x >= NUM_REGISTERS {
            Err(reg_fault(x))
        } else {
            Ok(s.set_reg_flag(x, s.reg(x) / 2, s.reg(x) % 2))
        },
        Opcode::SUBN_Vx_Vy(x, y) => if x >= NUM_REGISTERS {
            Err(reg_fault(x))
        } else if y >= NUM_REGISTERS {
            Err(reg_fault(y))
        } else {
            let (a, b) = (s.reg(y), s.reg(x));
            Ok(s.set_reg_flag(x, ((a - b) % 256) as u8, if a >= b { 1 } else { 0 }))
        },
        Opcode::SHL_Vx(x) => if x >= NUM_REGISTERS {
            Err(reg_fault(x))
        } else {
            Ok(s.set_reg_flag(x, ((s.reg(x) * 2) % 256) as u8, s.reg(x) / 128))
        },
        Opcode::SNE_Vx_Vy(x, y) => if x >= NUM_REGISTERS {
            Err(reg_fault(x))
        } else if y >= NUM_REGISTERS {
            Err(reg_fault(y))
        } else {
            skip_if(s, s.reg(x) != s.reg(y))
        },
        Opcode::LD_I_addr(a) => Ok(MachineState { i: a, ..s }),
        Opcode::JP_V0_addr(a) => jump_to(s, a + s.reg(0)),
        Opcode::RND_Vx_byte(x, kk) => if x >= NUM_REGISTERS {
            Err(reg_fault(x))
        } else {
            Ok(s.set_reg(x, rnd & kk))
        },
        Opcode::DRW_Vx_Vy_nibble(x, y, n) => if x >= NUM_REGISTERS {
            Err(reg_fault(x))
        } else if y >= NUM_REGISTERS {
            Err(reg_fault(y))
        } else if n > 0 && !span_fits(s.i as int, n as int) {
            Err(span_fault(s.i as int, n as int))
        } else {
            let (left, top) = (s.reg(x), s.reg(y));
            let hit = draw_collides(s.display, s.memory, s.i, n, left, top);
            Ok(
                MachineState {
                    display: drawn_display(s.display, s.memory, s.i, n, left, top),
                    v: s.v.update(FLAG_REGISTER as int, if hit { 1u8 } else { 0u8 }),
                    ..s
                },
            )
        },
        Opcode::SKP_Vx(x) => if x >= NUM_REGISTERS {
            Err(reg_fault(x))
        } else if s.reg(x) >= NUM_KEYS {
            Err(Chip8Error::InvalidKey(s.reg(x)))
        } else {
            skip_if(s, s.keys[s.reg(x) as int])
        },
        Opcode::SKNP_Vx(x) => if x >= NUM_REGISTERS {
            Err(reg_fault(x))
        } else if s.reg(x) >= NUM_KEYS {
            Err(Chip8Error::InvalidKey(s.reg(x)))
        } else {
            skip_if(s, !s.keys[s.reg(x) as int])
        },
        Opcode::LD_Vx_DT(x) => if x >= NUM_REGISTERS {
            Err(reg_fault(x))
        } else {
            Ok(s.set_reg(x, s.delay_timer))
        },
        Opcode::LD_Vx_K(x) => if x >= NUM_REGISTERS {
            Err(reg_fault(x))
        } else if any_key_pressed(s.keys) {
            Ok(s.set_reg(x, lowest_pressed(s.keys) as u8))
        } else if s.pc < 2 {
            Err(Chip8Error::InvalidMemoryAccess(s.pc as usize))
        } else {
            Ok(s.set_pc(s.pc - 2))
        },
        Opcode::LD_DT_Vx(x) => if x >= NUM_REGISTERS {
            Err(reg_fault(x))
        } else {
            Ok(MachineState { delay_timer: s.reg(x), ..s })
        },
        Opcode::LD_ST_Vx(x) => if x >= NUM_REGISTERS {
            Err(reg_fault(x))
        } else {
            Ok(MachineState { sound_timer: s.reg(x), ..s })
        },
        Opcode::ADD_I_Vx(x) => if x >= NUM_REGISTERS {
            Err(reg_fault(x))
        } else {
            Ok(MachineState { i: ((s.i + s.reg(x)) % 0x10000) as u16, ..s })
        },
        Opcode::LD_F_Vx(x) => if x >= NUM_REGISTERS {
            Err(reg_fault(x))
        } else if s.reg(x) > 0xF {
            Err(Chip8Error::InvalidFontDigit(s.reg(x)))
        } else {
            Ok(MachineState { i: (s.reg(x) * 5) as u16, ..s })
        },
        Opcode::LD_B_Vx(x) => if x >= NUM_REGISTERS {
            Err(reg_fault(x))
        } else if !span_fits(s.i as int, 3) {
            Err(span_fault(s.i as int, 3))
        } else {
            let d = decimal_digits(s.reg(x));
            Ok(
                MachineState {
                    memory: s.memory.update(s.i as int, d[0]).update(s.i + 1, d[1]).update(
                        s.i + 2,
                        d[2],
                    ),
                    ..s
                },
            )
        },
        Opcode::LD_I_Vx(x) => if x >= NUM_REGISTERS {
            Err(reg_fault(x))
        } else if !span_fits(s.i as int, x + 1) {
            Err(span_fault(s.i as int, x + 1))
        } else {
            Ok(
                MachineState {
                    memory: Seq::new(
                        MEMORY_SIZE as nat,
                        |a: int|
                            if s.i <= a <= s.i + x {
                                s.v[a - s.i]
                            } else {
                                s.memory[a]
                            },
                    ),
                    ..s
                },
            )
        },
        Opcode::LD_Vx_I(x) => if x >= NUM_REGISTERS {
            Err(reg_fault(x))
        } else if !span_fits(s.i as int, x + 1) {
            Err(span_fault(s.i as int, x + 1))
        } else {
            Ok(
                MachineState {
                    v: Seq::new(
                        NUM_REGISTERS as nat,
                        |k: int|
                            if k <= x {
                                s.memory[s.i + k]
                            } else {
                                s.v[k]
                            },
                    ),
                    ..s
                },
            )
        },
        Opcode::INVALID(w) => Err(Chip8Error::InvalidOpcode(w)),
    }
}

/// `r` and `post` are what running `op` on `pre` gives: the new state with
/// `Ok`, or the fault with the state left as it was.
pub open spec fn outcome(
    pre: MachineState,
    op: Opcode,
    rnd: u8,
    r: Result<(), Chip8Error>,
    post: MachineState,
) -> bool {
    match step_spec(pre, op, rnd) {
        Ok(s) => r == Ok::<(), Chip8Error>(()) && post == s,
        Err(e) => r == Err::<(), Chip8Error>(e) && post == pre,
    }
}

/// `r` and `post` are what running `op` on `pre` gives, for some random
/// byte where `op` draws one and exactly otherwise.
pub open spec fn executed(
    pre: MachineState,
    op: Opcode,
    r: Result<(), Chip8Error>,
    post: MachineState,
) -> bool {
    if op is RND_Vx_byte {
        exists|rnd: u8| outcome(pre, op, rnd, r, post)
    } else {
        outcome(pre, op, 0, r, post)
    }
}

} // verus!
