//! Decoding of 16-bit opcodes into tagged instruction variants.

use vstd::prelude::*;

verus! {

/// One decoded opcode. The operands are kept in the fetched order: register
/// indices first, then a literal byte, address or sprite height.
#[allow(non_camel_case_types)]
#[derive(Debug, Clone, Copy, PartialEq, Eq, Structural)]
pub enum Instruction {
    SYS(u16),
    CLS,
    RET,
    JP_ADDR(u16),
    CALL_ADDR(u16),
    SE_BYTE(u16, u8),
    SNE_BYTE(u16, u8),
    SE(u16, u16),
    LD_BYTE(u16, u8),
    ADD_BYTE(u16, u8),
    LD(u16, u16),
    OR(u16, u16),
    AND(u16, u16),
    XOR(u16, u16),
    ADD(u16, u16),
    SUB(u16, u16),
    SHR(u16),
    SUBN(u16, u16),
    SHL(u16),
    SNE(u16, u16),
    LD_I(u16),
    JP_V0(u16),
    RND_BYTE(u16, u8),
    DRW(u16, u16, u8),
    SKP(u16),
    SKNP(u16),
    LD_DT(u16),
    LD_KEY(u16),
    LD_DT_SET(u16),
    LD_ST_SET(u16),
    ADD_I(u16),
    LD_F(u16),
    LD_B(u16),
    LD_STORE_I(u16),
    LD_READ_I(u16),
}

/// An opcode that matches no known encoding, carrying the offending value.
#[derive(Debug, Clone, Copy, PartialEq, Eq, Structural)]
pub struct DecodeError {
    pub opcode: u16,
}

impl Instruction {
    /// Every operand is within the range the encoding can produce: register
    /// indices below 16, addresses below 4096, sprite heights below 16.
    pub open spec fn wf(self) -> bool {
        match self {
            Instruction::SYS(addr) => addr < 0x1000,
            Instruction::CLS => true,
            Instruction::RET => true,
            Instruction::JP_ADDR(addr) => addr < 0x1000,
            Instruction::CALL_ADDR(addr) => addr < 0x1000,
            Instruction::SE_BYTE(x, _) => x < 16,
            Instruction::SNE_BYTE(x, _) => x < 16,
            Instruction::SE(x, y) => x < 16 && y < 16,
            Instruction::LD_BYTE(x, _) => x < 16,
            Instruction::ADD_BYTE(x, _) => x < 16,
            Instruction::LD(x, y) => x < 16 && y < 16,
            Instruction::OR(x, y) => x < 16 && y < 16,
            Instruction::AND(x, y) => x < 16 && y < 16,
            Instruction::XOR(x, y) => x < 16 && y < 16,
            Instruction::ADD(x, y) => x < 16 && y < 16,
            Instruction::SUB(x, y) => x < 16 && y < 16,
            Instruction::SHR(x) => x < 16,
            Instruction::SUBN(x, y) => x < 16 && y < 16,
            Instruction::SHL(x) => x < 16,
            Instruction::SNE(x, y) => x < 16 && y < 16,
            Instruction::LD_I(addr) => addr < 0x1000,
            Instruction::JP_V0(addr) => addr < 0x1000,
            Instruction::RND_BYTE(x, _) => x < 16,
            Instruction::DRW(x, y, n) => x < 16 && y < 16 && n < 16,
            Instruction::SKP(x) => x < 16,
            Instruction::SKNP(x) => x < 16,
            Instruction::LD_DT(x) => x < 16,
            Instruction::LD_KEY(x) => x < 16,
            Instruction::LD_DT_SET(x) => x < 16,
            Instruction::LD_ST_SET(x) => x < 16,
            Instruction::ADD_I(x) => x < 16,
            Instruction::LD_F(x) => x < 16,
            Instruction::LD_B(x) => x < 16,
            Instruction::LD_STORE_I(x) => x < 16,
            Instruction::LD_READ_I(x) => x < 16,
        }
    }

    /// What `parse` returns, written over the opcode's bit fields. The
    /// most-significant nibble selects the family; the two constant opcodes
    /// take precedence over the generic machine-code-call form. The
    /// register-pair skip families demand a zero low nibble, and an
    /// unrecognized selector in the arithmetic or transfer families is a
    /// decode error like any other unmatched pattern.
    pub open spec fn parse_spec(bytes: u16) -> Result<Instruction, DecodeError> {
        let family = bytes >> 12;
        let x = (bytes & 0x0F00) >> 8;
        let y = (bytes & 0x00F0) >> 4;
        let nnn = bytes & 0x0FFF;
        let kk = (bytes & 0x00FF) as u8;
        let n = (bytes & 0x000F) as u8;
        if bytes == 0x00E0 {
            Ok(Instruction::CLS)
        } else if bytes == 0x00EE {
            Ok(Instruction::RET)
        } else if family == 0x0 {
            Ok(Instruction::SYS(nnn))
        } else if family == 0x1 {
            Ok(Instruction::JP_ADDR(nnn))
        } else if family == 0x2 {
            Ok(Instruction::CALL_ADDR(nnn))
        } else if family == 0x3 {
            Ok(Instruction::SE_BYTE(x, kk))
        } else if family == 0x4 {
            Ok(Instruction::SNE_BYTE(x, kk))
        } else if family == 0x5 {
            if n == 0 {
                Ok(Instruction::SE(x, y))
            } else {
                Err(DecodeError { opcode: bytes })
            }
        } else if family == 0x6 {
            Ok(Instruction::LD_BYTE(x, kk))
        } else if family == 0x7 {
            Ok(Instruction::ADD_BYTE(x, kk))
        } else if family == 0x8 {
            if n == 0x0 {
                Ok(Instruction::LD(x, y))
            } else if n == 0x1 {
                Ok(Instruction::OR(x, y))
            } else if n == 0x2 {
                Ok(Instruction::AND(x, y))
            } else if n == 0x3 {
                Ok(Instruction::XOR(x, y))
            } else if n == 0x4 {
                Ok(Instruction::ADD(x, y))
            } else if n == 0x5 {
                Ok(Instruction::SUB(x, y))
            } else if n == 0x6 {
                Ok(Instruction::SHR(x))
            } else if n == 0x7 {
                Ok(Instruction::SUBN(x, y))
            } else if n == 0xE {
                Ok(Instruction::SHL(x))
            } else {
                Err(DecodeError { opcode: bytes })
            }
        } else if family == 0x9 {
            if n == 0 {
                Ok(Instruction::SNE(x, y))
            } else {
                Err(DecodeError { opcode: bytes })
            }
        } else if family == 0xA {
            Ok(Instruction::LD_I(nnn))
        } else if family == 0xB {
            Ok(Instruction::JP_V0(nnn))
        } else if family == 0xC {
            Ok(Instruction::RND_BYTE(x, kk))
        } else if family == 0xD {
            Ok(Instruction::DRW(x, y, n))
        } else if family == 0xE {
            if kk == 0x9E {
                Ok(Instruction::SKP(x))
            } else if kk == 0xA1 {
                Ok(Instruction::SKNP(x))
            } else {
                Err(DecodeError { opcode: bytes })
            }
        } else {
            if kk == 0x07 {
                Ok(Instruction::LD_DT(x))
            } else if kk == 0x0A {
                Ok(Instruction::LD_KEY(x))
            } else if kk == 0x15 {
                Ok(Instruction::LD_DT_SET(x))
            } else if kk == 0x18 {
                Ok(Instruction::LD_ST_SET(x))
            } else if kk == 0x1E {
                Ok(Instruction::ADD_I(x))
            } else if kk == 0x29 {
                Ok(Instruction::LD_F(x))
            } else if kk == 0x33 {
                Ok(Instruction::LD_B(x))
            } else if kk == 0x55 {
                Ok(Instruction::LD_STORE_I(x))
            } else if kk == 0x65 {
                Ok(Instruction::LD_READ_I(x))
            } else {
                Err(DecodeError { opcode: bytes })
            }
        }
    }

    /// The register index (bits 8-11) and literal byte (bits 0-7) of an opcode.
    fn parse_xkk(bytes: u16) -> (r: (u16, u8))
        ensures
            r.0 == (bytes & 0x0F00) >> 8,
            r.1 == (bytes & 0x00FF) as u8,
            r.0 < 16,
    {
        let vx = (bytes & 0x0F00) >> 8;
        let kk = (bytes & 0x00FF) as u8;
        proof {
            assert((bytes & 0x0F00) >> 8 < 16) by (bit_vector);
        }
        (vx, kk)
    }

    /// The two register indices (bits 8-11 and 4-7) of an opcode.
    fn parse_xy(bytes: u16) -> (r: (u16, u16))
        ensures
            r.0 == (bytes & 0x0F00) >> 8,
            r.1 == (bytes & 0x00F0) >> 4,
            r.0 < 16,
            r.1 < 16,
    {
        let vx = (bytes & 0x0F00) >> 8;
        let vy = (bytes & 0x00F0) >> 4;
        proof {
            assert((bytes & 0x0F00) >> 8 < 16 && (bytes & 0x00F0) >> 4 < 16) by (bit_vector);
        }
        (vx, vy)
    }

    /// Decode a fetched opcode, or report the value that matched no encoding.
    pub fn parse(bytes: u16) -> (r: Result<Instruction, DecodeError>)
        ensures
            r == Instruction::parse_spec(bytes),
            r is Ok ==> r->Ok_0.wf(),
    {
        proof {
            assert(bytes & 0x0FFF < 0x1000) by (bit_vector);
            assert(bytes & 0x000F < 16) by (bit_vector);
            assert(bytes & 0x00FF < 256) by (bit_vector);
        }
        let family = bytes >> 12;
        let nnn = bytes & 0x0FFF;
        let n = (bytes & 0x000F) as u8;
        if bytes == 0x00E0 {
            Ok(Instruction::CLS)
        } else if bytes == 0x00EE {
            Ok(Instruction::RET)
        } else if family == 0x0 {
            Ok(Instruction::SYS(nnn))
        } else if family == 0x1 {
            Ok(Instruction::JP_ADDR(nnn))
        } else if family == 0x2 {
            Ok(Instruction::CALL_ADDR(nnn))
        } else if family == 0x3 {
            let (vx, kk) = Instruction::parse_xkk(bytes);
            Ok(Instruction::SE_BYTE(vx, kk))
        } else if family == 0x4 {
            let (vx, kk) = Instruction::parse_xkk(bytes);
            Ok(Instruction::SNE_BYTE(vx, kk))
        } else if family == 0x5 {
            let (vx, vy) = Instruction::parse_xy(bytes);
            if n == 0 {
                Ok(Instruction::SE(vx, vy))
            } else {
                Err(DecodeError { opcode: bytes })
            }
        } else if family == 0x6 {
            let (vx, kk) = Instruction::parse_xkk(bytes);
            Ok(Instruction::LD_BYTE(vx, kk))
        } else if family == 0x7 {
            let (vx, kk) = Instruction::parse_xkk(bytes);
            Ok(Instruction::ADD_BYTE(vx, kk))
        } else if family == 0x8 {
            let (vx, vy) = Instruction::parse_xy(bytes);
            if n == 0x0 {
                Ok(Instruction::LD(vx, vy))
            } else if n == 0x1 {
                Ok(Instruction::OR(vx, vy))
            } else if n == 0x2 {
                Ok(Instruction::AND(vx, vy))
            } else if n == 0x3 {
                Ok(Instruction::XOR(vx, vy))
            } else if n == 0x4 {
                Ok(Instruction::ADD(vx, vy))
            } else if n == 0x5 {
                Ok(Instruction::SUB(vx, vy))
            } else if n == 0x6 {
                Ok(Instruction::SHR(vx))
            } else if n == 0x7 {
                Ok(Instruction::SUBN(vx, vy))
            } else if n == 0xE {
                Ok(Instruction::SHL(vx))
            } else {
                Err(DecodeError { opcode: bytes })
            }
        } else if family == 0x9 {
            let (vx, vy) = Instruction::parse_xy(bytes);
            if n == 0 {
                Ok(Instruction::SNE(vx, vy))
            } else {
                Err(DecodeError { opcode: bytes })
            }
        } else if family == 0xA {
            Ok(Instruction::LD_I(nnn))
        } else if family == 0xB {
            Ok(Instruction::JP_V0(nnn))
        } else if family == 0xC {
            let (vx, kk) = Instruction::parse_xkk(bytes);
            Ok(Instruction::RND_BYTE(vx, kk))
        } else if family == 0xD {
            let (vx, vy) = Instruction::parse_xy(bytes);
            Ok(Instruction::DRW(vx, vy, n))
        } else if family == 0xE {
            let (vx, kk) = Instruction::parse_xkk(bytes);
            if kk == 0x9E {
                Ok(Instruction::SKP(vx))
            } else if kk == 0xA1 {
                Ok(Instruction::SKNP(vx))
            } else {
                Err(DecodeError { opcode: bytes })
            }
        } else {
            let (vx, kk) = Instruction::parse_xkk(bytes);
            if kk == 0x07 {
                Ok(Instruction::LD_DT(vx))
            } else if kk == 0x0A {
                Ok(Instruction::LD_KEY(vx))
            } else if kk == 0x15 {
                Ok(Instruction::LD_DT_SET(vx))
            } else if kk == 0x18 {
                Ok(Instruction::LD_ST_SET(vx))
            } else if kk == 0x1E {
                Ok(Instruction::ADD_I(vx))
            } else if kk == 0x29 {
                Ok(Instruction::LD_F(vx))
            } else if kk == 0x33 {
                Ok(Instruction::LD_B(vx))
            } else if kk == 0x55 {
                Ok(Instruction::LD_STORE_I(vx))
            } else if kk == 0x65 {
                Ok(Instruction::LD_READ_I(vx))
            } else {
                Err(DecodeError { opcode: bytes })
            }
        }
    }
}

} // verus!
