use vstd::prelude::*;

verus! {

/// One decoded operation. `x` and `y` name registers, `kk` is an immediate
/// byte, `n` a 4-bit height and `nnn` a 12-bit address.
#[allow(non_camel_case_types)]
#[derive(Debug, Clone, Copy, PartialEq, Eq, Structural)]
pub enum Opcode {
    CLS,                          // 00E0
    RET,                          // 00EE
    SYS(u16),                     // 0nnn
    JP(u16),                      // 1nnn
    CALL(u16),                    // 2nnn
    SE_Vx_byte(u8, u8),           // 3xkk
    SNE_Vx_byte(u8, u8),          // 4xkk
    SE_Vx_Vy(u8, u8),             // 5xy0
    LD_Vx_byte(u8, u8),           // 6xkk
    ADD_Vx_byte(u8, u8),          // 7xkk
    LD_Vx_Vy(u8, u8),             // 8xy0
    OR_Vx_Vy(u8, u8),             // 8xy1
    AND_Vx_Vy(u8, u8),            // 8xy2
    XOR_Vx_Vy(u8, u8),            // 8xy3
    ADD_Vx_Vy(u8, u8),            // 8xy4
    SUB_Vx_Vy(u8, u8),            // 8xy5
    SHR_Vx(u8),                   // 8xy6
    SUBN_Vx_Vy(u8, u8),           // 8xy7
    SHL_Vx(u8),                   // 8xyE
    SNE_Vx_Vy(u8, u8),            // 9xy0
    LD_I_addr(u16),               // Annn
    JP_V0_addr(u16),              // Bnnn
    RND_Vx_byte(u8, u8),          // Cxkk
    DRW_Vx_Vy_nibble(u8, u8, u8), // Dxyn
    SKP_Vx(u8),                   // Ex9E
    SKNP_Vx(u8),                  // ExA1
    LD_Vx_DT(u8),                 // Fx07
    LD_Vx_K(u8),                  // Fx0A
    LD_DT_Vx(u8),                 // Fx15
    LD_ST_Vx(u8),                 // Fx18
    ADD_I_Vx(u8),                 // Fx1E
    LD_F_Vx(u8),                  // Fx29
    LD_B_Vx(u8),                  // Fx33
    LD_I_Vx(u8),                  // Fx55
    LD_Vx_I(u8),                  // Fx65
    /// A word that names no operation, kept as it was read.
    INVALID(u16),
}

/// The top nibble of a word: the major operation family.
pub open spec fn family_of(w: u16) -> u16 {
    w / 0x1000
}

/// Bits 8 to 11: the first register operand.
pub open spec fn x_of(w: u16) -> u8 {
    ((w / 0x100) % 0x10) as u8
}

/// Bits 4 to 7: the second register operand.
pub open spec fn y_of(w: u16) -> u8 {
    ((w / 0x10) % 0x10) as u8
}

/// Bits 0 to 3.
pub open spec fn n_of(w: u16) -> u8 {
    (w % 0x10) as u8
}

/// Bits 0 to 7.
pub open spec fn kk_of(w: u16) -> u8 {
    (w % 0x100) as u8
}

/// Bits 0 to 11.
pub open spec fn nnn_of(w: u16) -> u16 {
    w % 0x1000
}

/// The arithmetic and logic family `8xyN`, selected by its low nibble.
pub open spec fn decode_alu(w: u16) -> Opcode {
    let (x, y, n) = (x_of(w), y_of(w), n_of(w));
    if n == 0x0 {
        Opcode::LD_Vx_Vy(x, y)
    } else if n == 0x1 {
        Opcode::OR_Vx_Vy(x, y)
    } else if n == 0x2 {
        Opcode::AND_Vx_Vy(x, y)
    } else if n == 0x3 {
        Opcode::XOR_Vx_Vy(x, y)
    } else if n == 0x4 {
        Opcode::ADD_Vx_Vy(x, y)
    } else if n == 0x5 {
        Opcode::SUB_Vx_Vy(x, y)
    } else if n == 0x6 {
        Opcode::SHR_Vx(x)
    } else if n == 0x7 {
        Opcode::SUBN_Vx_Vy(x, y)
    } else if n == 0xE {
        Opcode::SHL_Vx(x)
    } else {
        Opcode::INVALID(w)
    }
}

/// The key-skip family `ExKK`, selected by its low byte.
pub open spec fn decode_keys(w: u16) -> Opcode {
    let (x, kk) = (x_of(w), kk_of(w));
    if kk == 0x9E {
        Opcode::SKP_Vx(x)
    } else if kk == 0xA1 {
        Opcode::SKNP_Vx(x)
    } else {
        Opcode::INVALID(w)
    }
}

/// The miscellaneous family `FxKK`, selected by its low byte.
pub open spec fn decode_misc(w: u16) -> Opcode {
    let (x, kk) = (x_of(w), kk_of(w));
    if kk == 0x07 {
        Opcode::LD_Vx_DT(x)
    } else if kk == 0x0A {
        Opcode::LD_Vx_K(x)
    } else if kk == 0x15 {
        Opcode::LD_DT_Vx(x)
    } else if kk == 0x18 {
        Opcode::LD_ST_Vx(x)
    } else if kk == 0x1E {
        Opcode::ADD_I_Vx(x)
    } else if kk == 0x29 {
        Opcode::LD_F_Vx(x)
    } else if kk == 0x33 {
        Opcode::LD_B_Vx(x)
    } else if kk == 0x55 {
        Opcode::LD_I_Vx(x)
    } else if kk == 0x65 {
        Opcode::LD_Vx_I(x)
    } else {
        Opcode::INVALID(w)
    }
}

/// The operation that an instruction word stands for.
pub open spec fn decode_spec(w: u16) -> Opcode {
    let f = family_of(w);
    let (x, y, n, kk, nnn) = (x_of(w), y_of(w), n_of(w), kk_of(w), nnn_of(w));
    if f == 0x0 {
        if w == 0x00E0 {
            Opcode::CLS
        } else if w == 0x00EE {
            Opcode::RET
        } else {
            Opcode::SYS(nnn)
        }
    } else if f == 0x1 {
        Opcode::JP(nnn)
    } else if f == 0x2 {
        Opcode::CALL(nnn)
    } else if f == 0x3 {
        Opcode::SE_Vx_byte(x, kk)
    } else if f == 0x4 {
        Opcode::SNE_Vx_byte(x, kk)
    } else if f == 0x5 {
        if n == 0 { Opcode::SE_Vx_Vy(x, y) } else { Opcode::INVALID(w) }
    } else if f == 0x6 {
        Opcode::LD_Vx_byte(x, kk)
    } else if f == 0x7 {
        Opcode::ADD_Vx_byte(x, kk)
    } else if f == 0x8 {
        decode_alu(w)
    } else if f == 0x9 {
        if n == 0 { Opcode::SNE_Vx_Vy(x, y) } else { Opcode::INVALID(w) }
    } else if f == 0xA {
        Opcode::LD_I_addr(nnn)
    } else if f == 0xB {
        Opcode::JP_V0_addr(nnn)
    } else if f == 0xC {
        Opcode::RND_Vx_byte(x, kk)
    } else if f == 0xD {
        Opcode::DRW_Vx_Vy_nibble(x, y, n)
    } else if f == 0xE {
        decode_keys(w)
    } else {
        decode_misc(w)
    }
}

impl Opcode {
    /// Every operand lies within the bit field it is read from: registers
    /// and the sprite height in four bits, addresses in twelve.
    pub open spec fn fields_fit(self) -> bool {
        match self {
            Opcode::SYS(a) | Opcode::JP(a) | Opcode::CALL(a) | Opcode::LD_I_addr(a)
            | Opcode::JP_V0_addr(a) => a < 0x1000,
            Opcode::SE_Vx_byte(x, _) | Opcode::SNE_Vx_byte(x, _) | Opcode::LD_Vx_byte(x, _)
            | Opcode::ADD_Vx_byte(x, _) | Opcode::RND_Vx_byte(x, _) => x < 16,
            Opcode::SE_Vx_Vy(x, y) | Opcode::LD_Vx_Vy(x, y) | Opcode::OR_Vx_Vy(x, y)
            | Opcode::AND_Vx_Vy(x, y) | Opcode::XOR_Vx_Vy(x, y) | Opcode::ADD_Vx_Vy(x, y)
            | Opcode::SUB_Vx_Vy(x, y) | Opcode::SUBN_Vx_Vy(x, y) | Opcode::SNE_Vx_Vy(x, y) => x
                < 16 && y < 16,
            Opcode::DRW_Vx_Vy_nibble(x, y, n) => x < 16 && y < 16 && n < 16,
            Opcode::SHR_Vx(x) | Opcode::SHL_Vx(x) | Opcode::SKP_Vx(x) | Opcode::SKNP_Vx(x)
            | Opcode::LD_Vx_DT(x) | Opcode::LD_Vx_K(x) | Opcode::LD_DT_Vx(x)
            | Opcode::LD_ST_Vx(x) | Opcode::ADD_I_Vx(x) | Opcode::LD_F_Vx(x)
            | Opcode::LD_B_Vx(x) | Opcode::LD_I_Vx(x) | Opcode::LD_Vx_I(x) => x < 16,
            Opcode::CLS | Opcode::RET | Opcode::INVALID(_) => true,
        }
    }

    /// The sprite height of a draw, where one is given, fits in four bits.
    pub open spec fn height_fits(self) -> bool {
        match self {
            Opcode::DRW_Vx_Vy_nibble(_, _, n) => n < 16,
            _ => true,
        }
    }
}

/// Decoding is total and exact: every one of the 65,536 words decodes to
/// one operation whose operands fit their bit fields, and a word that names
/// no operation comes back as `INVALID` carrying that very word.
pub proof fn lemma_decode_total(w: u16)
    ensures
        decode_spec(w).fields_fit(),
        decode_spec(w).height_fits(),
        decode_spec(w) matches Opcode::INVALID(raw) ==> raw == w,
{
}

} // verus!
