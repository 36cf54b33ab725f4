use vstd::prelude::*;

use crate::register::Register;

verus! {

/// One decoded instruction, carrying only the operands its encoding holds.
#[derive(Debug, PartialEq, Eq, Structural, Clone, Copy)]
pub enum Instruction {
    /// `00E0`: clear the screen.
    CLS,
    /// `1NNN`: jump to `NNN`.
    JP(u16),
    /// `3XNN`: skip the next instruction if `Vx == NN`.
    SEImm(Register, u8),
    /// `4XNN`: skip the next instruction if `Vx != NN`.
    SNE(Register, u8),
    /// `5XY0`: skip the next instruction if `Vx == Vy`.
    SEDir(Register, Register),
    /// `6XNN`: `Vx = NN`.
    LDImm(Register, u8),
    /// `7XNN`: `Vx = Vx + NN`, wrapping.
    ADDImm(Register, u8),
    /// `8XY0`: `Vx = Vy`.
    LDDir(Register, Register),
    /// `8XY1`: `Vx = Vx | Vy`.
    OR(Register, Register),
    /// `8XY2`: `Vx = Vx & Vy`.
    AND(Register, Register),
    /// `8XY3`: `Vx = Vx ^ Vy`.
    XOR(Register, Register),
    /// `8XY4`: `Vx = Vx + Vy`, wrapping; `VF` = carry.
    ADDDir(Register, Register),
    /// `8XY5`: `Vx = Vx - Vy`, wrapping; `VF` = no borrow.
    SUB(Register, Register),
    /// `8XY6`: `Vx = Vx >> 1`; `VF` = the bit shifted out.
    SHR(Register),
    /// `8XY7`: `Vx = Vy - Vx`, wrapping; `VF` = no borrow.
    SUBN(Register, Register),
    /// `8XYE`: `Vx = Vx << 1`, wrapping; `VF` = the bit shifted out.
    SHL(Register),
    /// `ANNN`: `IR = NNN`.
    LDI(u16),
    /// `BNNN`: jump to `V0 + NNN`.
    JPOff(u16),
    /// `DXYN`: draw the `N`-byte sprite at `IR` at position `(Vx, Vy)`.
    DRW(Register, Register, u8),
    /// `FX07`: `Vx = delay timer`.
    LDVDT(Register),
    /// `FX0A`: wait for a key press and store its code in `Vx`.
    LDK(Register),
    /// `FX15`: `delay timer = Vx`.
    LDDT(Register),
}

/// A word that encodes no instruction of the set.
#[derive(Debug, PartialEq, Eq, Structural, Clone, Copy)]
pub struct DecodeError {
    /// The raw word that failed to decode.
    pub word: u16,
}

/// The words that encode an instruction, read off the opcode table by mask.
pub open spec fn is_supported(w: u16) -> bool {
    let top = w & 0xF000;
    ||| w == 0x00E0
    ||| top == 0x1000
    ||| top == 0x3000
    ||| top == 0x4000
    ||| w & 0xF00F == 0x5000
    ||| top == 0x6000
    ||| top == 0x7000
    ||| (top == 0x8000 && (w & 0x000F <= 7 || w & 0x000F == 0xE))
    ||| top == 0xA000
    ||| top == 0xB000
    ||| top == 0xD000
    ||| w & 0xF0FF == 0xF007
    ||| w & 0xF0FF == 0xF00A
    ||| w & 0xF0FF == 0xF015
}

/// The instruction a word encodes: dispatch on the top nibble, then on the
/// low nibble for the `8` family and the low byte for the `F` family.
#[verifier::opaque]
pub open spec fn decode_spec(w: u16) -> Result<Instruction, DecodeError> {
    let n1 = w / 0x1000;
    let x = ((w / 0x100) % 0x10) as nat;
    let y = ((w / 0x10) % 0x10) as nat;
    let n = (w % 0x10) as u8;
    let kk = (w % 0x100) as u8;
    let nnn = w % 0x1000;
    let vx = Register::spec_v(x);
    let vy = Register::spec_v(y);
    if w == 0x00E0 {
        Ok(Instruction::CLS)
    } else if n1 == 0x1 {
        Ok(Instruction::JP(nnn))
    } else if n1 == 0x3 {
        Ok(Instruction::SEImm(vx, kk))
    } else if n1 == 0x4 {
        Ok(Instruction::SNE(vx, kk))
    } else if n1 == 0x5 && n == 0 {
        Ok(Instruction::SEDir(vx, vy))
    } else if n1 == 0x6 {
        Ok(Instruction::LDImm(vx, kk))
    } else if n1 == 0x7 {
        Ok(Instruction::ADDImm(vx, kk))
    } else if n1 == 0x8 && n == 0x0 {
        Ok(Instruction::LDDir(vx, vy))
    } else if n1 == 0x8 && n == 0x1 {
        Ok(Instruction::OR(vx, vy))
    } else if n1 == 0x8 && n == 0x2 {
        Ok(Instruction::AND(vx, vy))
    } else if n1 == 0x8 && n == 0x3 {
        Ok(Instruction::XOR(vx, vy))
    } else if n1 == 0x8 && n == 0x4 {
        Ok(Instruction::ADDDir(vx, vy))
    } else if n1 == 0x8 && n == 0x5 {
        Ok(Instruction::SUB(vx, vy))
    } else if n1 == 0x8 && n == 0x6 {
        Ok(Instruction::SHR(vx))
    } else if n1 == 0x8 && n == 0x7 {
        Ok(Instruction::SUBN(vx, vy))
    } else if n1 == 0x8 && n == 0xE {
        Ok(Instruction::SHL(vx))
    } else if n1 == 0xA {
        Ok(Instruction::LDI(nnn))
    } else if n1 == 0xB {
        Ok(Instruction::JPOff(nnn))
    } else if n1 == 0xD {
        Ok(Instruction::DRW(vx, vy, n))
    } else if n1 == 0xF && kk == 0x07 {
        Ok(Instruction::LDVDT(vx))
    } else if n1 == 0xF && kk == 0x0A {
        Ok(Instruction::LDK(vx))
    } else if n1 == 0xF && kk == 0x15 {
        Ok(Instruction::LDDT(vx))
    } else {
        Err(DecodeError { word: w })
    }
}

/// Decoding is total on the opcode table and fails exactly off it, naming
/// the word; being a function of the word alone, it is deterministic.
#[verifier::rlimit(30)]
pub proof fn lemma_decode_total(w: u16)
    ensures
        is_supported(w) <==> decode_spec(w) is Ok,
        !is_supported(w) ==> decode_spec(w) == Err::<Instruction, DecodeError>(
            DecodeError { word: w },
        ),
{
    reveal(decode_spec);
    assert(w & 0xF000 == (w / 0x1000) * 0x1000) by (bit_vector);
    assert(w & 0xF00F == (w / 0x1000) * 0x1000 + w % 0x10) by (bit_vector);
    assert(w & 0xF0FF == (w / 0x1000) * 0x1000 + w % 0x100) by (bit_vector);
    assert(w & 0x000F == w % 0x10) by (bit_vector);
    assert(w % 0x100 == ((w / 0x10) % 0x10) * 0x10 + w % 0x10) by (bit_vector);
}

impl Instruction {
    /// Decodes one 16-bit word; words outside the opcode table are refused.
    #[verifier::rlimit(30)]
    pub fn decode(instruction: u16) -> (r: Result<Instruction, DecodeError>)
        ensures
            r == decode_spec(instruction),
            r is Ok <==> is_supported(instruction),
    {
        proof {
            lemma_decode_total(instruction);
            reveal(decode_spec);
        }
        if instruction == 0x00E0 {
            return Ok(Instruction::CLS);
        }
        let n1 = instruction / 0x1000;
        let n2 = ((instruction / 0x100) % 0x10) as u8;
        let n3 = ((instruction / 0x10) % 0x10) as u8;
        let n4 = (instruction % 0x10) as u8;
        let b2 = (instruction % 0x100) as u8;
        let nnn = instruction % 0x1000;

        // the general-purpose registers Vx and Vy sit in the middle nibbles
        let vx = Register::v_register_from(n2);
        let vy = Register::v_register_from(n3);
        let unsupported = Err(DecodeError { word: instruction });

        match n1 {
            0x1 => Ok(Instruction::JP(nnn)),
            0x3 => Ok(Instruction::SEImm(vx, b2)),
            0x4 => Ok(Instruction::SNE(vx, b2)),
            0x5 => if n4 == 0 {
                Ok(Instruction::SEDir(vx, vy))
            } else {
                unsupported
            },
            0x6 => Ok(Instruction::LDImm(vx, b2)),
            0x7 => Ok(Instruction::ADDImm(vx, b2)),
            0x8 => match n4 {
                0x0 => Ok(Instruction::LDDir(vx, vy)),
                0x1 => Ok(Instruction::OR(vx, vy)),
                0x2 => Ok(Instruction::AND(vx, vy)),
                0x3 => Ok(Instruction::XOR(vx, vy)),
                0x4 => Ok(Instruction::ADDDir(vx, vy)),
                0x5 => Ok(Instruction::SUB(vx, vy)),
                0x6 => Ok(Instruction::SHR(vx)),
                0x7 => Ok(Instruction::SUBN(vx, vy)),
                0xE => Ok(Instruction::SHL(vx)),
                _ => unsupported,
            },
            0xA => Ok(Instruction::LDI(nnn)),
            0xB => Ok(Instruction::JPOff(nnn)),
            0xD => Ok(Instruction::DRW(vx, vy, n4)),
            0xF => match b2 {
                0x07 => Ok(Instruction::LDVDT(vx)),
                0x0A => Ok(Instruction::LDK(vx)),
                0x15 => Ok(Instruction::LDDT(vx)),
                _ => unsupported,
            },
            _ => unsupported,
        }
    }
}

} // verus!
