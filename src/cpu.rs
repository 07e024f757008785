use vstd::prelude::*;
use crate::error::Chip8Error;
use crate::opcode::{decode_spec, kk_of, lemma_decode_total, n_of, nnn_of, x_of, y_of, Opcode};
use crate::state::{
    advanced, any_key_pressed, blank_display, cell_of, col_at, drawn_display, executed,
    fetch_spec, initial_state, lemma_cell_of_pixel, lemma_pixel_of_cell, loaded_state,
    lowest_pressed, outcome, row_at, sprite_covers, step_spec, MachineState, DISPLAY_HEIGHT,
    DISPLAY_SIZE, DISPLAY_WIDTH, FLAG_REGISTER, MAX_PROGRAM_SIZE, MEMORY_SIZE, NUM_KEYS,
    NUM_REGISTERS, PROGRAM_START, STACK_SIZE,
};

verus! {

/// The pixel at sprite row `r`, column `c` of the cell has been drawn once
/// rows before `row`, and the columns before `bit` of row `row`, are done.
spec fn drawn_before(left: u8, top: u8, row: int, bit: int, cell: int) -> bool {
    let r = row_at(top, cell);
    let c = col_at(left, cell);
    r < row || (r == row && c < bit)
}

/// Relies on rand::random::<u8>: a byte from the thread-local generator.
/// Nothing is known of its value.
#[verifier::external_body]
fn random_byte() -> (r: u8) {
    rand::random::<u8>()
}

/// The engine: memory, registers, call stack, timers, display and keypad.
#[derive(Clone)]
pub struct CPU {
    memory: [u8; MEMORY_SIZE],
    v: [u8; NUM_REGISTERS],
    i: u16,
    pc: u16,
    stack: [u16; STACK_SIZE],
    sp: u8,
    delay_timer: u8,
    sound_timer: u8,
    pub display: [bool; DISPLAY_SIZE],
    keys: [bool; NUM_KEYS],
}

impl View for CPU {
    type V = MachineState;

    closed spec fn view(&self) -> MachineState {
        MachineState {
            memory: self.memory@,
            v: self.v@,
            i: self.i,
            pc: self.pc,
            stack: self.stack@,
            sp: self.sp,
            delay_timer: self.delay_timer,
            sound_timer: self.sound_timer,
            display: self.display@,
            keys: self.keys@,
        }
    }
}

impl CPU {
    /// The stack pointer stays within the stack.
    pub open spec fn wf(&self) -> bool {
        self@.wf()
    }

    /// A fresh machine with zeroed memory, registers, display and timers.
    pub fn new() -> (r: CPU)
        ensures
            r.wf(),
            r@ == initial_state(),
    {
        let r = CPU {
            memory: [0; MEMORY_SIZE],
            v: [0; NUM_REGISTERS],
            i: 0,
            pc: PROGRAM_START,
            stack: [0; STACK_SIZE],
            sp: 0,
            delay_timer: 0,
            sound_timer: 0,
            display: [false; DISPLAY_SIZE],
            keys: [false; NUM_KEYS],
        };
        assert(r@ =~= initial_state());
        r
    }

    /// Sets whether key `key` is held down; an index outside `0..16` is ignored.
    pub fn set_key(&mut self, key: usize, pressed: bool)
        requires
            old(self).wf(),
        ensures
            final(self).wf(),
            key < NUM_KEYS ==> final(self)@ == (MachineState {
                keys: old(self)@.keys.update(key as int, pressed),
                ..old(self)@
            }),
            key >= NUM_KEYS ==> final(self)@ == old(self)@,
    {
        if key < NUM_KEYS {
            self.keys[key] = pressed;
        }
    }

    /// Loads a program image at the program start into a fresh machine.
    /// An image larger than the space above the reserved region is refused
    /// whole and the machine is left as it was.
    pub fn load_to_memory(&mut self, program: &[u8]) -> (r: Result<(), Chip8Error>)
        requires
            old(self).wf(),
        ensures
            final(self).wf(),
            program@.len() <= MAX_PROGRAM_SIZE ==> r is Ok && final(self)@ == loaded_state(
                program@,
            ),
            program@.len() > MAX_PROGRAM_SIZE ==> r == Err::<(), Chip8Error>(
                Chip8Error::ProgramTooLarge(program@.len() as usize),
            ) && final(self)@ == old(self)@,
    {
        let len = program.len();
        if len > MAX_PROGRAM_SIZE {
            return Err(Chip8Error::ProgramTooLarge(len));
        }
        *self = CPU::new();
        let start = PROGRAM_START as usize;
        let mut k: usize = 0;
        while k < len
            invariant
                len == program@.len() <= MAX_PROGRAM_SIZE,
                start == PROGRAM_START,
                k <= len,
                self@ == (MachineState { memory: self.memory@, ..initial_state() }),
                self.memory@.len() == MEMORY_SIZE,
                forall|a: int|
                    0 <= a < MEMORY_SIZE ==> #[trigger] self.memory@[a] == if start <= a < start
                        + k {
                        program@[a - start]
                    } else {
                        0u8
                    },
            decreases len - k,
        {
            self.memory[start + k] = program[k];
            k += 1;
        }
        assert(self.memory@ =~= loaded_state(program@).memory);
        Ok(())
    }

    /// Fetches, decodes and executes the instruction at the counter. The
    /// counter moves past the instruction before it is executed; the timers
    /// are left alone.
    pub fn execute_cycle(&mut self) -> (r: Result<(), Chip8Error>)
        requires
            old(self).wf(),
        ensures
            final(self).wf(),
            match fetch_spec(old(self)@) {
                None => r == Err::<(), Chip8Error>(
                    Chip8Error::InvalidMemoryAccess(old(self)@.pc as usize),
                ) && final(self)@ == old(self)@,
                Some(w) => executed(advanced(old(self)@), decode_spec(w), r, final(self)@),
            },
    {
        let opcode = match self.fetch_opcode() {
            Ok(word) => word,
            Err(e) => return Err(e),
        };
        let decoded_opcode = self.decode_opcode(opcode);
        proof {
            lemma_decode_total(opcode);
        }
        self.pc += 2;
        self.execute_opcode(decoded_opcode)
    }

    /// Counts both timers down by one, stopping at zero.
    pub fn decrement_timers(&mut self)
        requires
            old(self).wf(),
        ensures
            final(self).wf(),
            final(self)@ == (MachineState {
                delay_timer: if old(self)@.delay_timer > 0 {
                    (old(self)@.delay_timer - 1) as u8
                } else {
                    0
                },
                sound_timer: if old(self)@.sound_timer > 0 {
                    (old(self)@.sound_timer - 1) as u8
                } else {
                    0
                },
                ..old(self)@
            }),
    {
        if self.delay_timer > 0 {
            self.delay_timer -= 1;
        }
        if self.sound_timer > 0 {
            self.sound_timer -= 1;
        }
    }

    /// The instruction word at the counter, most significant byte first.
    fn fetch_opcode(&self) -> (r: Result<u16, Chip8Error>)
        requires
            self.wf(),
        ensures
            match fetch_spec(self@) {
                Some(w) => r == Ok::<u16, Chip8Error>(w),
                None => r == Err::<u16, Chip8Error>(
                    Chip8Error::InvalidMemoryAccess(self@.pc as usize),
                ),
            },
    {
        let pc = self.pc as usize;
        if pc + 1 >= MEMORY_SIZE {
            return Err(Chip8Error::InvalidMemoryAccess(pc));
        }
        let high_byte = self.memory[pc];
        let low_byte = self.memory[pc + 1];
        let word = ((high_byte as u16) << 8) | (low_byte as u16);
        assert(word == high_byte * 0x100 + low_byte) by (bit_vector)
            requires
                word == ((high_byte as u16) << 8) | (low_byte as u16),
        ;
        Ok(word)
    }

    /// The operation that the instruction word `opcode` stands for.
    pub fn decode_opcode(&self, opcode: u16) -> (r: Opcode)
        ensures
            r == decode_spec(opcode),
    {
        let x = ((opcode & 0x0F00) >> 8) as u8;
        let y = ((opcode & 0x00F0) >> 4) as u8;
        let nnn = opcode & 0x0FFF;
        let kk = (opcode & 0x00FF) as u8;
        let n = (opcode & 0x000F) as u8;
        let family = (opcode & 0xF000) >> 12;
        assert(x == x_of(opcode) && y == y_of(opcode) && n == n_of(opcode)) by (bit_vector)
            requires
                x == ((opcode & 0x0F00) >> 8) as u8,
                y == ((opcode & 0x00F0) >> 4) as u8,
                n == (opcode & 0x000F) as u8,
        ;
        assert(nnn == nnn_of(opcode) && kk == kk_of(opcode) && family == opcode / 0x1000)
            by (bit_vector)
            requires
                nnn == opcode & 0x0FFF,
                kk == (opcode & 0x00FF) as u8,
                family == (opcode & 0xF000) >> 12,
        ;
        match family {
            0x0 => match opcode {
                0x00E0 => Opcode::CLS,
                0x00EE => Opcode::RET,
                _ => Opcode::SYS(nnn),
            },
            0x1 => Opcode::JP(nnn),
            0x2 => Opcode::CALL(nnn),
            0x3 => Opcode::SE_Vx_byte(x, kk),
            0x4 => Opcode::SNE_Vx_byte(x, kk),
            0x5 if n == 0 => Opcode::SE_Vx_Vy(x, y),
            0x6 => Opcode::LD_Vx_byte(x, kk),
            0x7 => Opcode::ADD_Vx_byte(x, kk),
            0x8 => match n {
                0x0 => Opcode::LD_Vx_Vy(x, y),
                0x1 => Opcode::OR_Vx_Vy(x, y),
                0x2 => Opcode::AND_Vx_Vy(x, y),
                0x3 => Opcode::XOR_Vx_Vy(x, y),
                0x4 => Opcode::ADD_Vx_Vy(x, y),
                0x5 => Opcode::SUB_Vx_Vy(x, y),
                0x6 => Opcode::SHR_Vx(x),
                0x7 => Opcode::SUBN_Vx_Vy(x, y),
                0xE => Opcode::SHL_Vx(x),
                _ => Opcode::INVALID(opcode),
            },
            0x9 if n == 0 => Opcode::SNE_Vx_Vy(x, y),
            0xA => Opcode::LD_I_addr(nnn),
            0xB => Opcode::JP_V0_addr(nnn),
            0xC => Opcode::RND_Vx_byte(x, kk),
            0xD => Opcode::DRW_Vx_Vy_nibble(x, y, n),
            0xE => match kk {
                0x9E => Opcode::SKP_Vx(x),
                0xA1 => Opcode::SKNP_Vx(x),
                _ => Opcode::INVALID(opcode),
            },
            0xF => match kk {
                0x07 => Opcode::LD_Vx_DT(x),
                0x0A => Opcode::LD_Vx_K(x),
                0x15 => Opcode::LD_DT_Vx(x),
                0x18 => Opcode::LD_ST_Vx(x),
                0x1E => Opcode::ADD_I_Vx(x),
                0x29 => Opcode::LD_F_Vx(x),
                0x33 => Opcode::LD_B_Vx(x),
                0x55 => Opcode::LD_I_Vx(x),
                0x65 => Opcode::LD_Vx_I(x),
                _ => Opcode::INVALID(opcode),
            },
            _ => Opcode::INVALID(opcode),
        }
    }

    /// Applies one decoded operation. The counter is expected to be past
    /// the operation already: jumps, calls and returns overwrite it, skips
    /// move it on by one more instruction, and a key wait with no key held
    /// moves it back so that the wait runs again.
    pub fn execute_opcode(&mut self, opcode: Opcode) -> (r: Result<(), Chip8Error>)
        requires
            old(self).wf(),
            opcode.height_fits(),
        ensures
            final(self).wf(),
            executed(old(self)@, opcode, r, final(self)@),
    {
        match opcode {
            Opcode::CLS => self.cls(),
            Opcode::RET => self.ret(),
            Opcode::SYS(addr) => self.sys(addr),
            Opcode::JP(addr) => self.jp(addr),
            Opcode::CALL(nnn) => self.call(nnn),
            Opcode::SE_Vx_byte(x, kk) => self.se_vx_byte(x, kk),
            Opcode::SNE_Vx_byte(x, kk) => self.sne_vx_byte(x, kk),
            Opcode::SE_Vx_Vy(x, y) => self.se_vx_vy(x, y),
            Opcode::LD_Vx_byte(x, kk) => self.ld_vx_byte(x, kk),
            Opcode::ADD_Vx_byte(x, kk) => self.add_vx_byte(x, kk),
            Opcode::LD_Vx_Vy(x, y) => self.ld_vx_vy(x, y),
            Opcode::OR_Vx_Vy(x, y) => self.or_vx_vy(x, y),
            Opcode::AND_Vx_Vy(x, y) => self.and_vx_vy(x, y),
            Opcode::XOR_Vx_Vy(x, y) => self.xor_vx_vy(x, y),
            Opcode::ADD_Vx_Vy(x, y) => self.add_vx_vy(x, y),
            Opcode::SUB_Vx_Vy(x, y) => self.sub_vx_vy(x, y),
            Opcode::SHR_Vx(x) => self.shr_vx(x),
            Opcode::SUBN_Vx_Vy(x, y) => self.subn_vx_vy(x, y),
            Opcode::SHL_Vx(x) => self.shl_vx(x),
            Opcode::SNE_Vx_Vy(x, y) => self.sne_vx_vy(x, y),
            Opcode::LD_I_addr(nnn) => self.ld_i_addr(nnn),
            Opcode::JP_V0_addr(nnn) => self.jp_v0_addr(nnn),
            Opcode::RND_Vx_byte(x, kk) => self.rnd_vx_byte(x, kk),
            Opcode::DRW_Vx_Vy_nibble(x, y, n) => self.drw_vx_vy_nibble(x, y, n),
            Opcode::SKP_Vx(x) => self.skp_vx(x),
            Opcode::SKNP_Vx(x) => self.sknp_vx(x),
            Opcode::LD_Vx_DT(x) => self.ld_vx_dt(x),
            Opcode::LD_Vx_K(x) => self.ld_vx_k(x),
            Opcode::LD_DT_Vx(x) => self.ld_dt_vx(x),
            Opcode::LD_ST_Vx(x) => self.ld_st_vx(x),
            Opcode::ADD_I_Vx(x) => self.add_i_vx(x),
            Opcode::LD_F_Vx(x) => self.ld_f_vx(x),
            Opcode::LD_B_Vx(x) => self.ld_b_vx(x),
            Opcode::LD_I_Vx(x) => self.ld_i_vx(x),
            Opcode::LD_Vx_I(x) => self.ld_vx_i(x),
            Opcode::INVALID(op) => Err(Chip8Error::InvalidOpcode(op)),
        }
    }

    /// The display grid, row-major, 64 cells to a row.
    pub fn display(&self) -> (r: &[bool; DISPLAY_SIZE])
        ensures
            r@ == self@.display,
    {
        &self.display
    }

    /// The delay timer.
    pub fn delay_timer(&self) -> (r: u8)
        ensures
            r == self@.delay_timer,
    {
        self.delay_timer
    }

    /// The sound timer.
    pub fn sound_timer(&self) -> (r: u8)
        ensures
            r == self@.sound_timer,
    {
        self.sound_timer
    }

    /// The program counter.
    pub fn pc(&self) -> (r: u16)
        ensures
            r == self@.pc,
    {
        self.pc
    }

    /// The address register.
    pub fn index_register(&self) -> (r: u16)
        ensures
            r == self@.i,
    {
        self.i
    }

    /// The number of return addresses on the call stack.
    pub fn stack_pointer(&self) -> (r: u8)
        ensures
            r == self@.sp,
    {
        self.sp
    }

    /// General register `x`.
    pub fn register(&self, x: usize) -> (r: u8)
        requires
            x < NUM_REGISTERS,
        ensures
            r == self@.v[x as int],
    {
        self.v[x]
    }

    /// The byte at address `addr`.
    pub fn memory_at(&self, addr: usize) -> (r: u8)
        requires
            addr < MEMORY_SIZE,
        ensures
            r == self@.memory[addr as int],
    {
        self.memory[addr]
    }

    /// Whether key `key` is held down.
    pub fn key(&self, key: usize) -> (r: bool)
        requires
            key < NUM_KEYS,
        ensures
            r == self@.keys[key as int],
    {
        self.keys[key]
    }

    /// Moves the counter past the next instruction where `cond` holds.
    fn skip_if(&mut self, cond: bool) -> (r: Result<(), Chip8Error>)
        requires
            old(self).wf(),
        ensures
            final(self).wf(),
            match crate::state::skip_if(old(self)@, cond) {
                Ok(s) => r == Ok::<(), Chip8Error>(()) && final(self)@ == s,
                Err(e) => r == Err::<(), Chip8Error>(e) && final(self)@ == old(self)@,
            },
    {
        if cond {
            let target = self.pc as usize + 2;
            if target >= MEMORY_SIZE {
                return Err(Chip8Error::InvalidMemoryAccess(target));
            }
            self.pc = target as u16;
        }
        Ok(())
    }

    fn cls(&mut self) -> (r: Result<(), Chip8Error>)
        requires
            old(self).wf(),
        ensures
            final(self).wf(),
            outcome(old(self)@, Opcode::CLS, 0, r, final(self)@),
    {
        self.display = [false; DISPLAY_SIZE];
        assert(self.display@ =~= blank_display());
        Ok(())
    }

    fn ret(&mut self) -> (r: Result<(), Chip8Error>)
        requires
            old(self).wf(),
        ensures
            final(self).wf(),
            outcome(old(self)@, Opcode::RET, 0, r, final(self)@),
    {
        if self.sp == 0 {
            return Err(Chip8Error::StackUnderflow);
        }
        self.sp -= 1;
        self.pc = self.stack[self.sp as usize];
        Ok(())
    }

    fn sys(&mut self, addr: u16) -> (r: Result<(), Chip8Error>)
        requires
            old(self).wf(),
        ensures
            final(self).wf(),
            outcome(old(self)@, Opcode::SYS(addr), 0, r, final(self)@),
    {
        Ok(())
    }

    fn jp(&mut self, addr: u16) -> (r: Result<(), Chip8Error>)
        requires
            old(self).wf(),
        ensures
            final(self).wf(),
            outcome(old(self)@, Opcode::JP(addr), 0, r, final(self)@),
    {
        if addr as usize >= MEMORY_SIZE {
            return Err(Chip8Error::InvalidMemoryAccess(addr as usize));
        }
        self.pc = addr;
        Ok(())
    }

    fn call(&mut self, nnn: u16) -> (r: Result<(), Chip8Error>)
        requires
            old(self).wf(),
        ensures
            final(self).wf(),
            outcome(old(self)@, Opcode::CALL(nnn), 0, r, final(self)@),
    {
        if self.sp as usize == STACK_SIZE {
            return Err(Chip8Error::StackOverflow);
        }
        if nnn as usize >= MEMORY_SIZE {
            return Err(Chip8Error::InvalidMemoryAccess(nnn as usize));
        }
        self.stack[self.sp as usize] = self.pc;
        self.sp += 1;
        self.pc = nnn;
        Ok(())
    }

    fn se_vx_byte(&mut self, x: u8, kk: u8) -> (r: Result<(), Chip8Error>)
        requires
            old(self).wf(),
        ensures
            final(self).wf(),
            outcome(old(self)@, Opcode::SE_Vx_byte(x, kk), 0, r, final(self)@),
    {
        if x as usize >= NUM_REGISTERS {
            return Err(Chip8Error::InvalidRegister(x));
        }
        let cond = self.v[x as usize] == kk;
        self.skip_if(cond)
    }

    fn sne_vx_byte(&mut self, x: u8, kk: u8) -> (r: Result<(), Chip8Error>)
        requires
            old(self).wf(),
        ensures
            final(self).wf(),
            outcome(old(self)@, Opcode::SNE_Vx_byte(x, kk), 0, r, final(self)@),
    {
        if x as usize >= NUM_REGISTERS {
            return Err(Chip8Error::InvalidRegister(x));
        }
        let cond = self.v[x as usize] != kk;
        self.skip_if(cond)
    }

    fn se_vx_vy(&mut self, x: u8, y: u8) -> (r: Result<(), Chip8Error>)
        requires
            old(self).wf(),
        ensures
            final(self).wf(),
            outcome(old(self)@, Opcode::SE_Vx_Vy(x, y), 0, r, final(self)@),
    {
        if x as usize >= NUM_REGISTERS {
            return Err(Chip8Error::InvalidRegister(x));
        }
        if y as usize >= NUM_REGISTERS {
            return Err(Chip8Error::InvalidRegister(y));
        }
        let cond = self.v[x as usize] == self.v[y as usize];
        self.skip_if(cond)
    }

    fn ld_vx_byte(&mut self, x: u8, kk: u8) -> (r: Result<(), Chip8Error>)
        requires
            old(self).wf(),
        ensures
            final(self).wf(),
            outcome(old(self)@, Opcode::LD_Vx_byte(x, kk), 0, r, final(self)@),
    {
        if x as usize >= NUM_REGISTERS {
            return Err(Chip8Error::InvalidRegister(x));
        }
        self.v[x as usize] = kk;
        Ok(())
    }

    fn add_vx_byte(&mut self, x: u8, kk: u8) -> (r: Result<(), Chip8Error>)
        requires
            old(self).wf(),
        ensures
            final(self).wf(),
            outcome(old(self)@, Opcode::ADD_Vx_byte(x, kk), 0, r, final(self)@),
    {
        if x as usize >= NUM_REGISTERS {
            return Err(Chip8Error::InvalidRegister(x));
        }
        self.v[x as usize] = self.v[x as usize].wrapping_add(kk);
        Ok(())
    }

    fn ld_vx_vy(&mut self, x: u8, y: u8) -> (r: Result<(), Chip8Error>)
        requires
            old(self).wf(),
        ensures
            final(self).wf(),
            outcome(old(self)@, Opcode::LD_Vx_Vy(x, y), 0, r, final(self)@),
    {
        if x as usize >= NUM_REGISTERS {
            return Err(Chip8Error::InvalidRegister(x));
        }
        if y as usize >= NUM_REGISTERS {
            return Err(Chip8Error::InvalidRegister(y));
        }
        self.v[x as usize] = self.v[y as usize];
        Ok(())
    }

    fn or_vx_vy(&mut self, x: u8, y: u8) -> (r: Result<(), Chip8Error>)
        requires
            old(self).wf(),
        ensures
            final(self).wf(),
            outcome(old(self)@, Opcode::OR_Vx_Vy(x, y), 0, r, final(self)@),
    {
        if x as usize >= NUM_REGISTERS {
            return Err(Chip8Error::InvalidRegister(x));
        }
        if y as usize >= NUM_REGISTERS {
            return Err(Chip8Error::InvalidRegister(y));
        }
        self.v[x as usize] = self.v[x as usize] | self.v[y as usize];
        Ok(())
    }

    fn and_vx_vy(&mut self, x: u8, y: u8) -> (r: Result<(), Chip8Error>)
        requires
            old(self).wf(),
        ensures
            final(self).wf(),
            outcome(old(self)@, Opcode::AND_Vx_Vy(x, y), 0, r, final(self)@),
    {
        if x as usize >= NUM_REGISTERS {
            return Err(Chip8Error::InvalidRegister(x));
        }
        if y as usize >= NUM_REGISTERS {
            return Err(Chip8Error::InvalidRegister(y));
        }
        self.v[x as usize] = self.v[x as usize] & self.v[y as usize];
        Ok(())
    }

    fn xor_vx_vy(&mut self, x: u8, y: u8) -> (r: Result<(), Chip8Error>)
        requires
            old(self).wf(),
        ensures
            final(self).wf(),
            outcome(old(self)@, Opcode::XOR_Vx_Vy(x, y), 0, r, final(self)@),
    {
        if x as usize >= NUM_REGISTERS {
            return Err(Chip8Error::InvalidRegister(x));
        }
        if y as usize >= NUM_REGISTERS {
            return Err(Chip8Error::InvalidRegister(y));
        }
        self.v[x as usize] = self.v[x as usize] ^ self.v[y as usize];
        Ok(())
    }

    fn add_vx_vy(&mut self, x: u8, y: u8) -> (r: Result<(), Chip8Error>)
        requires
            old(self).wf(),
        ensures
            final(self).wf(),
            outcome(old(self)@, Opcode::ADD_Vx_Vy(x, y), 0, r, final(self)@),
    {
        if x as usize >= NUM_REGISTERS {
            return Err(Chip8Error::InvalidRegister(x));
        }
        if y as usize >= NUM_REGISTERS {
            return Err(Chip8Error::InvalidRegister(y));
        }
        let (vx, vy) = (self.v[x as usize], self.v[y as usize]);
        let overflow = vx as u16 + vy as u16 > 0xFF;
        self.v[x as usize] = vx.wrapping_add(vy);
        self.v[FLAG_REGISTER] = if overflow { 1 } else { 0 };
        Ok(())
    }

    fn sub_vx_vy(&mut self, x: u8, y: u8) -> (r: Result<(), Chip8Error>)
        requires
            old(self).wf(),
        ensures
            final(self).wf(),
            outcome(old(self)@, Opcode::SUB_Vx_Vy(x, y), 0, r, final(self)@),
    {
        if x as usize >= NUM_REGISTERS {
            return Err(Chip8Error::InvalidRegister(x));
        }
        if y as usize >= NUM_REGISTERS {
            return Err(Chip8Error::InvalidRegister(y));
        }
        let (vx, vy) = (self.v[x as usize], self.v[y as usize]);
        let borrow = vx < vy;
        self.v[x as usize] = vx.wrapping_sub(vy);
        self.v[FLAG_REGISTER] = if borrow { 0 } else { 1 };
        Ok(())
    }

    fn shr_vx(&mut self, x: u8) -> (r: Result<(), Chip8Error>)
        requires
            old(self).wf(),
        ensures
            final(self).wf(),
            outcome(old(self)@, Opcode::SHR_Vx(x), 0, r, final(self)@),
    {
        if x as usize >= NUM_REGISTERS {
            return Err(Chip8Error::InvalidRegister(x));
        }
        let vx = self.v[x as usize];
        let shifted = vx >> 1;
        let bit = vx & 0x1;
        assert(shifted == vx / 2 && bit == vx % 2) by (bit_vector)
            requires
                shifted == vx >> 1,
                bit == vx & 0x1,
        ;
        self.v[x as usize] = shifted;
        self.v[FLAG_REGISTER] = bit;
        Ok(())
    }

    fn subn_vx_vy(&mut self, x: u8, y: u8) -> (r: Result<(), Chip8Error>)
        requires
            old(self).wf(),
        ensures
            final(self).wf(),
            outcome(old(self)@, Opcode::SUBN_Vx_Vy(x, y), 0, r, final(self)@),
    {
        if x as usize >= NUM_REGISTERS {
            return Err(Chip8Error::InvalidRegister(x));
        }
        if y as usize >= NUM_REGISTERS {
            return Err(Chip8Error::InvalidRegister(y));
        }
        let (vx, vy) = (self.v[x as usize], self.v[y as usize]);
        let borrow = vy < vx;
        self.v[x as usize] = vy.wrapping_sub(vx);
        self.v[FLAG_REGISTER] = if borrow { 0 } else { 1 };
        Ok(())
    }

    fn shl_vx(&mut self, x: u8) -> (r: Result<(), Chip8Error>)
        requires
            old(self).wf(),
        ensures
            final(self).wf(),
            outcome(old(self)@, Opcode::SHL_Vx(x), 0, r, final(self)@),
    {
        if x as usize >= NUM_REGISTERS {
            return Err(Chip8Error::InvalidRegister(x));
        }
        let vx = self.v[x as usize];
        let shifted = vx << 1;
        let bit = (vx & 0x80) >> 7;
        assert(shifted == (vx * 2) % 256 && bit == vx / 128) by (bit_vector)
            requires
                shifted == vx << 1,
                bit == (vx & 0x80) >> 7,
        ;
        self.v[x as usize] = shifted;
        self.v[FLAG_REGISTER] = bit;
        Ok(())
    }

    fn sne_vx_vy(&mut self, x: u8, y: u8) -> (r: Result<(), Chip8Error>)
        requires
            old(self).wf(),
        ensures
            final(self).wf(),
            outcome(old(self)@, Opcode::SNE_Vx_Vy(x, y), 0, r, final(self)@),
    {
        if x as usize >= NUM_REGISTERS {
            return Err(Chip8Error::InvalidRegister(x));
        }
        if y as usize >= NUM_REGISTERS {
            return Err(Chip8Error::InvalidRegister(y));
        }
        let cond = self.v[x as usize] != self.v[y as usize];
        self.skip_if(cond)
    }

    fn ld_i_addr(&mut self, nnn: u16) -> (r: Result<(), Chip8Error>)
        requires
            old(self).wf(),
        ensures
            final(self).wf(),
            outcome(old(self)@, Opcode::LD_I_addr(nnn), 0, r, final(self)@),
    {
        self.i = nnn;
        Ok(())
    }

    fn jp_v0_addr(&mut self, nnn: u16) -> (r: Result<(), Chip8Error>)
        requires
            old(self).wf(),
        ensures
            final(self).wf(),
            outcome(old(self)@, Opcode::JP_V0_addr(nnn), 0, r, final(self)@),
    {
        let target = nnn as usize + self.v[0] as usize;
        if target >= MEMORY_SIZE {
            return Err(Chip8Error::InvalidMemoryAccess(target));
        }
        self.pc = target as u16;
        Ok(())
    }

    fn rnd_vx_byte(&mut self, x: u8, kk: u8) -> (r: Result<(), Chip8Error>)
        requires
            old(self).wf(),
        ensures
            final(self).wf(),
            exists|rnd: u8| outcome(old(self)@, Opcode::RND_Vx_byte(x, kk), rnd, r, final(self)@),
    {
        let random = random_byte();
        self.rnd_vx_byte_from(x, kk, random)
    }

    /// Loads `random & kk` into register `x`: the random-byte operation
    /// with the drawn byte given.
    pub fn rnd_vx_byte_from(&mut self, x: u8, kk: u8, random: u8) -> (r: Result<(), Chip8Error>)
        requires
            old(self).wf(),
        ensures
            final(self).wf(),
            outcome(old(self)@, Opcode::RND_Vx_byte(x, kk), random, r, final(self)@),
    {
        if x as usize >= NUM_REGISTERS {
            return Err(Chip8Error::InvalidRegister(x));
        }
        self.v[x as usize] = random & kk;
        Ok(())
    }

    fn drw_vx_vy_nibble(&mut self, x: u8, y: u8, n: u8) -> (r: Result<(), Chip8Error>)
        requires
            old(self).wf(),
            n < 16,
        ensures
            final(self).wf(),
            outcome(old(self)@, Opcode::DRW_Vx_Vy_nibble(x, y, n), 0, r, final(self)@),
    {
        if x as usize >= NUM_REGISTERS {
            return Err(Chip8Error::InvalidRegister(x));
        }
        if y as usize >= NUM_REGISTERS {
            return Err(Chip8Error::InvalidRegister(y));
        }
        let base = self.i as usize;
        if n > 0 && base + n as usize > MEMORY_SIZE {
            return Err(Chip8Error::InvalidMemoryAccess(base + n as usize - 1));
        }
        let left = self.v[x as usize];
        let top = self.v[y as usize];
        let ghost pre = self@;
        let mut collision = false;
        let mut row: u8 = 0;
        while row < n
            invariant
                row <= n < 16,
                x < NUM_REGISTERS,
                y < NUM_REGISTERS,
                pre == old(self)@,
                pre.wf(),
                base == pre.i,
                n > 0 ==> base + n <= MEMORY_SIZE,
                left == pre.v[x as int],
                top == pre.v[y as int],
                self@ == (MachineState { display: self.display@, ..pre }),
                self.display@.len() == DISPLAY_SIZE,
                forall|cell: int|
                    0 <= cell < DISPLAY_SIZE ==> #[trigger] self.display@[cell] == (pre.display[cell]
                        != (sprite_covers(pre.memory, pre.i, n, left, top, cell) && drawn_before(
                        left,
                        top,
                        row as int,
                        0,
                        cell,
                    ))),
                collision == exists|cell: int|
                    0 <= cell < DISPLAY_SIZE && pre.display[cell] && #[trigger] sprite_covers(
                        pre.memory,
                        pre.i,
                        n,
                        left,
                        top,
                        cell,
                    ) && drawn_before(left, top, row as int, 0, cell),
            decreases n - row,
        {
            let line = (top as usize + row as usize) % DISPLAY_HEIGHT;
            let sprite_byte = self.memory[base + row as usize];
            let mut bit: u8 = 0;
            while bit < 8
                invariant
                    row < n < 16,
                    bit <= 8,
                    x < NUM_REGISTERS,
                    y < NUM_REGISTERS,
                    pre == old(self)@,
                    pre.wf(),
                    base == pre.i,
                    base + n <= MEMORY_SIZE,
                    left == pre.v[x as int],
                    top == pre.v[y as int],
                    line == (top + row) % 32,
                    sprite_byte == pre.memory[base + row],
                    self@ == (MachineState { display: self.display@, ..pre }),
                    self.display@.len() == DISPLAY_SIZE,
                    forall|cell: int|
                        0 <= cell < DISPLAY_SIZE ==> #[trigger] self.display@[cell] == (
                        pre.display[cell] != (sprite_covers(pre.memory, pre.i, n, left, top, cell)
                            && drawn_before(left, top, row as int, bit as int, cell))),
                    collision == exists|cell: int|
                        0 <= cell < DISPLAY_SIZE && pre.display[cell] && #[trigger] sprite_covers(
                            pre.memory,
                            pre.i,
                            n,
                            left,
                            top,
                            cell,
                        ) && drawn_before(left, top, row as int, bit as int, cell),
                decreases 8 - bit,
            {
                let column = (left as usize + bit as usize) % DISPLAY_WIDTH;
                let color = (sprite_byte & (0x80u8 >> bit)) != 0;
                let index = line * DISPLAY_WIDTH + column;
                proof {
                    lemma_cell_of_pixel(left, top, row as int, bit as int);
                    assert(index == cell_of(left, top, row as int, bit as int));
                    assert(sprite_covers(pre.memory, pre.i, n, left, top, index as int) == color);
                    assert forall|cell: int| 0 <= cell < DISPLAY_SIZE && cell != index implies
                        drawn_before(left, top, row as int, bit + 1, cell) == drawn_before(
                            left,
                            top,
                            row as int,
                            bit as int,
                            cell,
                        ) by {
                        lemma_pixel_of_cell(left, top, cell);
                    }
                }
                let lit = self.display[index];
                if color && lit {
                    collision = true;
                }
                self.display[index] = lit != color;
                proof {
                    let covers = |cell: int|
                        sprite_covers(pre.memory, pre.i, n, left, top, cell);
                    let witness = |cell: int, b: int|
                        0 <= cell < DISPLAY_SIZE && pre.display[cell] && covers(cell)
                            && drawn_before(left, top, row as int, b, cell);
                    if collision {
                        if color && lit {
                            assert(witness(index as int, bit + 1));
                        } else {
                            let c = choose|c: int|
                                0 <= c < DISPLAY_SIZE && pre.display[c] && #[trigger] sprite_covers(
                                    pre.memory,
                                    pre.i,
                                    n,
                                    left,
                                    top,
                                    c,
                                ) && drawn_before(left, top, row as int, bit as int, c);
                            assert(witness(c, bit + 1));
                        }
                    } else {
                        assert forall|c: int| !#[trigger] witness(c, bit + 1) by {
                            if c == index {
                            } else {
                                assert(!witness(c, bit as int));
                            }
                        }
                    }
                }
                bit += 1;
            }
            proof {
                assert forall|cell: int| 0 <= cell < DISPLAY_SIZE implies (sprite_covers(
                    pre.memory,
                    pre.i,
                    n,
                    left,
                    top,
                    cell,
                ) && drawn_before(left, top, row as int, 8, cell)) == (sprite_covers(
                    pre.memory,
                    pre.i,
                    n,
                    left,
                    top,
                    cell,
                ) && drawn_before(left, top, row + 1, 0, cell)) by {
                    lemma_pixel_of_cell(left, top, cell);
                }
            }
            row += 1;
        }
        self.v[FLAG_REGISTER] = if collision { 1 } else { 0 };
        proof {
            assert forall|cell: int| 0 <= cell < DISPLAY_SIZE implies (sprite_covers(
                pre.memory,
                pre.i,
                n,
                left,
                top,
                cell,
            ) && drawn_before(left, top, n as int, 0, cell)) == sprite_covers(
                pre.memory,
                pre.i,
                n,
                left,
                top,
                cell,
            ) by {
                lemma_pixel_of_cell(left, top, cell);
            }
            assert(self.display@ =~= drawn_display(pre.display, pre.memory, pre.i, n, left, top));
        }
        Ok(())
    }

    fn skp_vx(&mut self, x: u8) -> (r: Result<(), Chip8Error>)
        requires
            old(self).wf(),
        ensures
            final(self).wf(),
            outcome(old(self)@, Opcode::SKP_Vx(x), 0, r, final(self)@),
    {
        if x as usize >= NUM_REGISTERS {
            return Err(Chip8Error::InvalidRegister(x));
        }
        let key = self.v[x as usize];
        if key as usize >= NUM_KEYS {
            return Err(Chip8Error::InvalidKey(key));
        }
        let cond = self.keys[key as usize];
        self.skip_if(cond)
    }

    fn sknp_vx(&mut self, x: u8) -> (r: Result<(), Chip8Error>)
        requires
            old(self).wf(),
        ensures
            final(self).wf(),
            outcome(old(self)@, Opcode::SKNP_Vx(x), 0, r, final(self)@),
    {
        if x as usize >= NUM_REGISTERS {
            return Err(Chip8Error::InvalidRegister(x));
        }
        let key = self.v[x as usize];
        if key as usize >= NUM_KEYS {
            return Err(Chip8Error::InvalidKey(key));
        }
        let cond = !self.keys[key as usize];
        self.skip_if(cond)
    }

    fn ld_vx_dt(&mut self, x: u8) -> (r: Result<(), Chip8Error>)
        requires
            old(self).wf(),
        ensures
            final(self).wf(),
            outcome(old(self)@, Opcode::LD_Vx_DT(x), 0, r, final(self)@),
    {
        if x as usize >= NUM_REGISTERS {
            return Err(Chip8Error::InvalidRegister(x));
        }
        self.v[x as usize] = self.delay_timer;
        Ok(())
    }

    fn ld_vx_k(&mut self, x: u8) -> (r: Result<(), Chip8Error>)
        requires
            old(self).wf(),
        ensures
            final(self).wf(),
            outcome(old(self)@, Opcode::LD_Vx_K(x), 0, r, final(self)@),
    {
        if x as usize >= NUM_REGISTERS {
            return Err(Chip8Error::InvalidRegister(x));
        }
        let mut key: usize = 0;
        while key < NUM_KEYS && !self.keys[key]
            invariant
                key <= NUM_KEYS,
                self.wf(),
                forall|j: int| 0 <= j < key ==> !#[trigger] self.keys@[j],
            decreases NUM_KEYS - key,
        {
            key += 1;
        }
        if key < NUM_KEYS {
            proof {
                let keys = self.keys@;
                assert(any_key_pressed(keys));
                let low = lowest_pressed(keys);
                if low < key {
                    assert(!keys[low]);
                } else if low > key {
                    assert(keys[key as int]);
                }
            }
            self.v[x as usize] = key as u8;
        } else {
            if self.pc < 2 {
                return Err(Chip8Error::InvalidMemoryAccess(self.pc as usize));
            }
            self.pc -= 2;
        }
        Ok(())
    }

    fn ld_b_vx(&mut self, x: u8) -> (r: Result<(), Chip8Error>)
        requires
            old(self).wf(),
        ensures
            final(self).wf(),
            outcome(old(self)@, Opcode::LD_B_Vx(x), 0, r, final(self)@),
    {
        if x as usize >= NUM_REGISTERS {
            return Err(Chip8Error::InvalidRegister(x));
        }
        let addr = self.i as usize;
        if addr + 3 > MEMORY_SIZE {
            return Err(Chip8Error::InvalidMemoryAccess(addr + 2));
        }
        let vx = self.v[x as usize];
        self.memory[addr] = vx / 100;
        self.memory[addr + 1] = (vx / 10) % 10;
        self.memory[addr + 2] = vx % 10;
        Ok(())
    }

    fn ld_dt_vx(&mut self, x: u8) -> (r: Result<(), Chip8Error>)
        requires
            old(self).wf(),
        ensures
            final(self).wf(),
            outcome(old(self)@, Opcode::LD_DT_Vx(x), 0, r, final(self)@),
    {
        if x as usize >= NUM_REGISTERS {
            return Err(Chip8Error::InvalidRegister(x));
        }
        self.delay_timer = self.v[x as usize];
        Ok(())
    }

    fn ld_st_vx(&mut self, x: u8) -> (r: Result<(), Chip8Error>)
        requires
            old(self).wf(),
        ensures
            final(self).wf(),
            outcome(old(self)@, Opcode::LD_ST_Vx(x), 0, r, final(self)@),
    {
        if x as usize >= NUM_REGISTERS {
            return Err(Chip8Error::InvalidRegister(x));
        }
        self.sound_timer = self.v[x as usize];
        Ok(())
    }

    fn add_i_vx(&mut self, x: u8) -> (r: Result<(), Chip8Error>)
        requires
            old(self).wf(),
        ensures
            final(self).wf(),
            outcome(old(self)@, Opcode::ADD_I_Vx(x), 0, r, final(self)@),
    {
        if x as usize >= NUM_REGISTERS {
            return Err(Chip8Error::InvalidRegister(x));
        }
        self.i = self.i.wrapping_add(self.v[x as usize] as u16);
        Ok(())
    }

    fn ld_f_vx(&mut self, x: u8) -> (r: Result<(), Chip8Error>)
        requires
            old(self).wf(),
        ensures
            final(self).wf(),
            outcome(old(self)@, Opcode::LD_F_Vx(x), 0, r, final(self)@),
    {
        if x as usize >= NUM_REGISTERS {
            return Err(Chip8Error::InvalidRegister(x));
        }
        let digit = self.v[x as usize];
        if digit > 0xF {
            return Err(Chip8Error::InvalidFontDigit(digit));
        }
        self.i = (digit as u16) * 5;
        Ok(())
    }

    fn ld_i_vx(&mut self, x: u8) -> (r: Result<(), Chip8Error>)
        requires
            old(self).wf(),
        ensures
            final(self).wf(),
            outcome(old(self)@, Opcode::LD_I_Vx(x), 0, r, final(self)@),
    {
        if x as usize >= NUM_REGISTERS {
            return Err(Chip8Error::InvalidRegister(x));
        }
        let base = self.i as usize;
        if base + x as usize + 1 > MEMORY_SIZE {
            return Err(Chip8Error::InvalidMemoryAccess(base + x as usize));
        }
        let mut k: usize = 0;
        while k <= x as usize
            invariant
                k <= x + 1,
                x < NUM_REGISTERS,
                base == self.i,
                base + x + 1 <= MEMORY_SIZE,
                self@ == (MachineState { memory: self.memory@, ..old(self)@ }),
                self.memory@.len() == MEMORY_SIZE,
                forall|a: int|
                    0 <= a < MEMORY_SIZE ==> #[trigger] self.memory@[a] == if base <= a < base + k {
                        old(self)@.v[a - base]
                    } else {
                        old(self)@.memory[a]
                    },
            decreases x + 1 - k,
        {
            self.memory[base + k] = self.v[k];
            k += 1;
        }
        assert(self.memory@ =~= step_spec(old(self)@, Opcode::LD_I_Vx(x), 0)->Ok_0.memory);
        Ok(())
    }

    fn ld_vx_i(&mut self, x: u8) -> (r: Result<(), Chip8Error>)
        requires
            old(self).wf(),
        ensures
            final(self).wf(),
            outcome(old(self)@, Opcode::LD_Vx_I(x), 0, r, final(self)@),
    {
        if x as usize >= NUM_REGISTERS {
            return Err(Chip8Error::InvalidRegister(x));
        }
        let base = self.i as usize;
        if base + x as usize + 1 > MEMORY_SIZE {
            return Err(Chip8Error::InvalidMemoryAccess(base + x as usize));
        }
        let mut k: usize = 0;
        while k <= x as usize
            invariant
                k <= x + 1,
                x < NUM_REGISTERS,
                base == self.i,
                base + x + 1 <= MEMORY_SIZE,
                self@ == (MachineState { v: self.v@, ..old(self)@ }),
                self.v@.len() == NUM_REGISTERS,
                forall|j: int|
                    0 <= j < NUM_REGISTERS ==> #[trigger] self.v@[j] == if j < k {
                        old(self)@.memory[base + j]
                    } else {
                        old(self)@.v[j]
                    },
            decreases x + 1 - k,
        {
            self.v[k] = self.memory[base + k];
            k += 1;
        }
        assert(self.v@ =~= step_spec(old(self)@, Opcode::LD_Vx_I(x), 0)->Ok_0.v);
        Ok(())
    }

}

} // verus!
