use vstd::prelude::*;

use crate::instruction::{DecodeError, Instruction, decode_spec};
use crate::memory::{
    FRAMEBUFFER_SIZE, MEMORY_SIZE, SCREEN_HEIGHT, SCREEN_WIDTH, blank_screen, lemma_word_round_trip,
    pixel_index, with_word, word_at,
};
use crate::register::{Register, VF_OFFSET, lemma_offsets_distinct};

verus! {

/// Why the machine stopped running.
#[derive(Debug, PartialEq, Eq, Structural, Clone, Copy)]
pub enum Halt {
    /// The fetched word was `0x0000`: there are no more instructions.
    EndOfProgram,
    /// The fetched word is not an instruction of the set.
    Unsupported(DecodeError),
    /// An access starting at this address would run past the end of memory.
    OutOfBounds(u16),
}

/// The abstract state of the machine: memory (registers included, at their
/// offsets), framebuffer, delay timer, the register awaiting a key press,
/// and why the machine halted, once it has.
pub struct Machine {
    pub bytes: Seq<u8>,
    pub pixels: Seq<u8>,
    pub delay: u8,
    pub waiting: Option<Register>,
    pub halted: Option<Halt>,
}

impl Machine {
    /// Memory and framebuffer have their fixed sizes.
    pub open spec fn wf(self) -> bool {
        &&& self.bytes.len() == MEMORY_SIZE
        &&& self.pixels.len() == FRAMEBUFFER_SIZE
    }

    /// The byte at register `r`'s offset.
    pub open spec fn reg(self, r: Register) -> u8 {
        self.bytes[r.spec_offset() as int]
    }

    /// The program counter.
    pub open spec fn pc(self) -> u16 {
        word_at(self.bytes, Register::PC.spec_offset() as int)
    }

    /// The index register.
    pub open spec fn ir(self) -> u16 {
        word_at(self.bytes, Register::IR.spec_offset() as int)
    }

    /// The machine with `v` stored in register `r`.
    pub open spec fn with_reg(self, r: Register, v: u8) -> Machine {
        Machine { bytes: self.bytes.update(r.spec_offset() as int, v), ..self }
    }

    /// The machine with the program counter set to `v`.
    pub open spec fn with_pc(self, v: u16) -> Machine {
        Machine { bytes: with_word(self.bytes, Register::PC.spec_offset() as int, v), ..self }
    }

    /// The machine with the index register set to `v`.
    pub open spec fn with_ir(self, v: u16) -> Machine {
        Machine { bytes: with_word(self.bytes, Register::IR.spec_offset() as int, v), ..self }
    }

    /// The program counter moved past one more two-byte instruction.
    pub open spec fn skipped(self) -> Machine {
        self.with_pc(((self.pc() + 2) % 0x10000) as u16)
    }
}

/// `VF` after `Vx + Vy`: 1 on carry.
pub open spec fn carry_flag(a: u8, b: u8) -> u8 {
    if a + b > 255 {
        1
    } else {
        0
    }
}

/// `VF` after `a - b`: 1 when no borrow occurs.
pub open spec fn no_borrow_flag(a: u8, b: u8) -> u8 {
    if a >= b {
        1
    } else {
        0
    }
}

/// `a + b` wrapped to 8 bits.
pub open spec fn add8(a: u8, b: u8) -> u8 {
    ((a + b) % 256) as u8
}

/// `a - b` wrapped to 8 bits.
pub open spec fn sub8(a: u8, b: u8) -> u8 {
    ((a - b + 256) % 256) as u8
}

/// Bit `j` of a sprite row, counted from the most significant bit: bit 0 is
/// the leftmost pixel.
pub open spec fn sprite_bit(byte: u8, j: nat) -> u8 {
    (byte >> ((7 - j) as u8)) & 1
}

/// Framebuffer index of the pixel that sprite bit `(i, j)` lands on when the
/// sprite is anchored at `(x0, y0)`; both coordinates wrap around.
pub open spec fn sprite_target(x0: u8, y0: u8, i: nat, j: nat) -> int {
    pixel_index((x0 + j) % SCREEN_WIDTH as int, (y0 + i) % SCREEN_HEIGHT as int)
}

/// One pixel of a draw: XOR the sprite bit in and set `VF` to whether the
/// pixel went from set to unset.
pub open spec fn draw_pixel(m: Machine, x0: u8, y0: u8, byte: u8, i: nat, j: nat) -> Machine {
    let t = sprite_target(x0, y0, i, j);
    let before = m.pixels[t];
    let after = before ^ sprite_bit(byte, j);
    Machine {
        bytes: m.bytes.update(VF_OFFSET as int, if before > after { 1u8 } else { 0u8 }),
        pixels: m.pixels.update(t, after),
        ..m
    }
}

/// The first `j` pixels of sprite row `i`, whose byte is `byte`.
pub open spec fn draw_row(m: Machine, x0: u8, y0: u8, byte: u8, i: nat, j: nat) -> Machine
    decreases j,
{
    if j == 0 {
        m
    } else {
        draw_pixel(draw_row(m, x0, y0, byte, i, (j - 1) as nat), x0, y0, byte, i, (j - 1) as nat)
    }
}

/// The first `k` rows of the sprite at `ir`; each row's byte is read when
/// that row begins.
pub open spec fn draw_rows(m: Machine, x0: u8, y0: u8, ir: nat, k: nat) -> Machine
    decreases k,
{
    if k == 0 {
        m
    } else {
        let before = draw_rows(m, x0, y0, ir, (k - 1) as nat);
        draw_row(before, x0, y0, before.bytes[ir + k - 1], (k - 1) as nat, 8)
    }
}

/// The effect of one instruction, or why it cannot run.
#[verifier::opaque]
pub open spec fn execute_spec(m: Machine, ins: Instruction) -> Result<Machine, Halt> {
    match ins {
        Instruction::CLS => Ok(Machine { pixels: blank_screen(), ..m }),
        Instruction::JP(nnn) => Ok(m.with_pc(nnn)),
        Instruction::SEImm(x, nn) => Ok(
            if m.reg(x) == nn {
                m.skipped()
            } else {
                m
            },
        ),
        Instruction::SNE(x, nn) => Ok(
            if m.reg(x) != nn {
                m.skipped()
            } else {
                m
            },
        ),
        Instruction::SEDir(x, y) => Ok(
            if m.reg(x) == m.reg(y) {
                m.skipped()
            } else {
                m
            },
        ),
        Instruction::LDImm(x, nn) => Ok(m.with_reg(x, nn)),
        Instruction::ADDImm(x, nn) => Ok(m.with_reg(x, add8(m.reg(x), nn))),
        Instruction::LDDir(x, y) => Ok(m.with_reg(x, m.reg(y))),
        Instruction::OR(x, y) => Ok(m.with_reg(x, m.reg(x) | m.reg(y))),
        Instruction::AND(x, y) => Ok(m.with_reg(x, m.reg(x) & m.reg(y))),
        Instruction::XOR(x, y) => Ok(m.with_reg(x, m.reg(x) ^ m.reg(y))),
        Instruction::ADDDir(x, y) => Ok(
            m.with_reg(x, add8(m.reg(x), m.reg(y))).with_reg(
                Register::VF,
                carry_flag(m.reg(x), m.reg(y)),
            ),
        ),
        Instruction::SUB(x, y) => Ok(
            m.with_reg(x, sub8(m.reg(x), m.reg(y))).with_reg(
                Register::VF,
                no_borrow_flag(m.reg(x), m.reg(y)),
            ),
        ),
        Instruction::SHR(x) => Ok(
            m.with_reg(x, m.reg(x) / 2).with_reg(Register::VF, m.reg(x) % 2),
        ),
        Instruction::SUBN(x, y) => Ok(
            m.with_reg(x, sub8(m.reg(y), m.reg(x))).with_reg(
                Register::VF,
                no_borrow_flag(m.reg(y), m.reg(x)),
            ),
        ),
        Instruction::SHL(x) => Ok(
            m.with_reg(x, ((m.reg(x) * 2) % 256) as u8).with_reg(Register::VF, m.reg(x) / 128),
        ),
        Instruction::LDI(nnn) => Ok(m.with_ir(nnn)),
        Instruction::JPOff(nnn) => Ok(m.with_pc(((m.reg(Register::V0) + nnn) % 0x10000) as u16)),
        Instruction::DRW(x, y, n) => if m.ir() + n > MEMORY_SIZE {
            Err(Halt::OutOfBounds(m.ir()))
        } else {
            Ok(draw_rows(m, m.reg(x), m.reg(y), m.ir() as nat, n as nat))
        },
        Instruction::LDVDT(x) => Ok(m.with_reg(x, m.delay)),
        Instruction::LDK(x) => Ok(Machine { waiting: Some(x), ..m }),
        Instruction::LDDT(x) => Ok(Machine { delay: m.reg(x), ..m }),
    }
}

/// One cycle. A halted machine stays halted and reports why; while a key is
/// awaited nothing happens. Otherwise the word at `PC` is fetched and `PC`
/// advanced by 2; the `0x0000` sentinel ends the program, an undecodable
/// word or a failing instruction halts the machine, anything else is
/// executed. A halt is recorded in the machine, which is otherwise left as
/// it was after the fetch.
pub open spec fn cycle_spec(m: Machine) -> (Machine, Result<(), Halt>) {
    if m.halted is Some {
        (m, Err(m.halted->Some_0))
    } else if m.waiting is Some {
        (m, Ok(()))
    } else if m.pc() + 1 >= MEMORY_SIZE {
        let h = Halt::OutOfBounds(m.pc());
        (Machine { halted: Some(h), ..m }, Err(h))
    } else {
        let w = word_at(m.bytes, m.pc() as int);
        let fetched = m.with_pc((m.pc() + 2) as u16);
        let stop = if w == 0 {
            Some(Halt::EndOfProgram)
        } else {
            match decode_spec(w) {
                Err(e) => Some(Halt::Unsupported(e)),
                Ok(ins) => match execute_spec(fetched, ins) {
                    Ok(_) => None,
                    Err(h) => Some(h),
                },
            }
        };
        match stop {
            Some(h) => (Machine { halted: Some(h), ..fetched }, Err(h)),
            None => (execute_spec(fetched, decode_spec(w)->Ok_0)->Ok_0, Ok(())),
        }
    }
}

/// At most `k` cycles, stopping early on a halt or while a key is awaited.
pub open spec fn run_spec(m: Machine, k: nat) -> (Machine, Option<Halt>)
    decreases k,
{
    if k == 0 || (m.waiting is Some && m.halted is None) {
        (m, None)
    } else {
        let (next, r) = cycle_spec(m);
        match r {
            Err(h) => (next, Some(h)),
            Ok(_) => run_spec(next, (k - 1) as nat),
        }
    }
}

/// A key press: stored in the awaited register, which releases the wait;
/// ignored while no key is awaited.
pub open spec fn press_spec(m: Machine, key: u8) -> Machine {
    match m.waiting {
        Some(r) => Machine { waiting: None, ..m.with_reg(r, key) },
        None => m,
    }
}

/// One timer period: the delay timer counts down to 0 and stays there.
pub open spec fn tick_spec(m: Machine) -> Machine {
    Machine { delay: if m.delay > 0 { (m.delay - 1) as u8 } else { 0 }, ..m }
}

/// A general-purpose register never shares a byte with `PC` or `IR`.
proof fn lemma_v_above_pointers(n: nat)
    ensures
        Register::spec_v(n).spec_offset() >= 4,
        Register::spec_v(n).spec_offset() < 20,
{
}

/// A cycle that runs a conditional skip (`SEImm`, `SNE`, `SEDir`) moves `PC`
/// on by 4 when the skip condition holds and by 2 when it does not.
#[verifier::rlimit(30)]
pub proof fn lemma_skip_advances_pc(m: Machine)
    requires
        m.wf(),
        m.halted is None,
        m.waiting is None,
        m.pc() + 1 < MEMORY_SIZE,
        decode_spec(word_at(m.bytes, m.pc() as int)) matches Ok(ins) && (ins is SEImm || ins is SNE
            || ins is SEDir),
    ensures
        cycle_spec(m).1 is Ok,
        match decode_spec(word_at(m.bytes, m.pc() as int)) {
            Ok(Instruction::SEImm(x, nn)) => cycle_spec(m).0.pc() == if m.reg(x) == nn {
                m.pc() + 4
            } else {
                m.pc() + 2
            },
            Ok(Instruction::SNE(x, nn)) => cycle_spec(m).0.pc() == if m.reg(x) != nn {
                m.pc() + 4
            } else {
                m.pc() + 2
            },
            Ok(Instruction::SEDir(x, y)) => cycle_spec(m).0.pc() == if m.reg(x) == m.reg(y) {
                m.pc() + 4
            } else {
                m.pc() + 2
            },
            _ => true,
        },
{
    reveal(decode_spec);
    reveal(execute_spec);
    let w = word_at(m.bytes, m.pc() as int);
    let fetched = m.with_pc((m.pc() + 2) as u16);
    lemma_word_round_trip(m.bytes, 0, (m.pc() + 2) as u16);
    lemma_word_round_trip(fetched.bytes, 0, (m.pc() + 4) as u16);
    lemma_v_above_pointers(((w / 0x100) % 0x10) as nat);
    lemma_v_above_pointers(((w / 0x10) % 0x10) as nat);
    assert(w != 0);
}

/// The flag that `ADDDir`, `SUB`, `SHR`, `SUBN` and `SHL` leave in `VF` is the
/// one the opcode table gives from the operands; when no operand is `VF`
/// itself, whatever `VF` held before makes no difference.
#[verifier::rlimit(30)]
pub proof fn lemma_flag_ignores_prior_vf(m: Machine, ins: Instruction, v: u8)
    requires
        m.wf(),
        ins is ADDDir || ins is SUB || ins is SHR || ins is SUBN || ins is SHL,
    ensures
        execute_spec(m, ins) is Ok,
        match ins {
            Instruction::ADDDir(x, y) => execute_spec(m, ins)->Ok_0.reg(Register::VF) == carry_flag(
                m.reg(x),
                m.reg(y),
            ),
            Instruction::SUB(x, y) => execute_spec(m, ins)->Ok_0.reg(Register::VF)
                == no_borrow_flag(m.reg(x), m.reg(y)),
            Instruction::SHR(x) => execute_spec(m, ins)->Ok_0.reg(Register::VF) == m.reg(x) % 2,
            Instruction::SUBN(x, y) => execute_spec(m, ins)->Ok_0.reg(Register::VF)
                == no_borrow_flag(m.reg(y), m.reg(x)),
            Instruction::SHL(x) => execute_spec(m, ins)->Ok_0.reg(Register::VF) == m.reg(x) / 128,
            _ => true,
        },
        match ins {
            Instruction::ADDDir(x, y) | Instruction::SUB(x, y) | Instruction::SUBN(x, y) => x
                != Register::VF && y != Register::VF,
            Instruction::SHR(x) | Instruction::SHL(x) => x != Register::VF,
            _ => false,
        } ==> execute_spec(m.with_reg(Register::VF, v), ins)->Ok_0.reg(Register::VF)
            == execute_spec(m, ins)->Ok_0.reg(Register::VF),
{
    reveal(execute_spec);
    let m2 = m.with_reg(Register::VF, v);
    match ins {
        Instruction::ADDDir(x, y) | Instruction::SUB(x, y) | Instruction::SUBN(x, y) => {
            if x != Register::VF && y != Register::VF {
                lemma_offsets_distinct(x, Register::VF);
                lemma_offsets_distinct(y, Register::VF);
                assert(m2.reg(x) == m.reg(x));
                assert(m2.reg(y) == m.reg(y));
            }
        },
        Instruction::SHR(x) | Instruction::SHL(x) => {
            if x != Register::VF {
                lemma_offsets_distinct(x, Register::VF);
                assert(m2.reg(x) == m.reg(x));
            }
        },
        _ => {},
    }
}

/// Two machines that differ at most in `VF` agree once a row has drawn at
/// least one pixel.
proof fn lemma_row_forgets_vf(m1: Machine, m2: Machine, x0: u8, y0: u8, byte: u8, i: nat, j: nat)
    requires
        m1.wf(),
        j >= 1,
        m2 == (Machine { bytes: m1.bytes.update(VF_OFFSET as int, m2.bytes[VF_OFFSET as int]), ..m1 }),
    ensures
        draw_row(m1, x0, y0, byte, i, j) == draw_row(m2, x0, y0, byte, i, j),
    decreases j,
{
    if j == 1 {
        let first = draw_pixel(m1, x0, y0, byte, i, 0);
        let second = draw_pixel(m2, x0, y0, byte, i, 0);
        assert(first.bytes =~= second.bytes);
        assert(draw_row(m1, x0, y0, byte, i, 0) == m1);
        assert(draw_row(m2, x0, y0, byte, i, 0) == m2);
    } else {
        lemma_row_forgets_vf(m1, m2, x0, y0, byte, i, (j - 1) as nat);
    }
}

/// Two machines that differ at most in `VF` agree once the first sprite row
/// is drawn, provided that row's byte is not `VF` itself.
proof fn lemma_rows_forget_vf(m1: Machine, m2: Machine, x0: u8, y0: u8, ir: nat, k: nat)
    requires
        m1.wf(),
        k >= 1,
        ir != VF_OFFSET,
        ir + k <= MEMORY_SIZE,
        m2 == (Machine { bytes: m1.bytes.update(VF_OFFSET as int, m2.bytes[VF_OFFSET as int]), ..m1 }),
    ensures
        draw_rows(m1, x0, y0, ir, k) == draw_rows(m2, x0, y0, ir, k),
    decreases k,
{
    if k == 1 {
        assert(m1.bytes[ir as int] == m2.bytes[ir as int]);
        assert(draw_rows(m1, x0, y0, ir, 0) == m1);
        assert(draw_rows(m2, x0, y0, ir, 0) == m2);
        lemma_row_forgets_vf(m1, m2, x0, y0, m1.bytes[ir as int], 0, 8);
    } else {
        lemma_rows_forget_vf(m1, m2, x0, y0, ir, (k - 1) as nat);
    }
}

/// A draw of at least one row sets `VF` from that draw's own pixels: what
/// `VF` held before makes no difference to the outcome, unless `VF` is one
/// of the coordinates or the first sprite byte.
pub proof fn lemma_draw_ignores_prior_vf(m: Machine, x: Register, y: Register, n: u8, v: u8)
    requires
        m.wf(),
        n >= 1,
        x != Register::VF,
        y != Register::VF,
        m.ir() != VF_OFFSET,
    ensures
        execute_spec(m.with_reg(Register::VF, v), Instruction::DRW(x, y, n)) == execute_spec(
            m,
            Instruction::DRW(x, y, n),
        ),
{
    reveal(execute_spec);
    let m2 = m.with_reg(Register::VF, v);
    lemma_offsets_distinct(x, Register::VF);
    lemma_offsets_distinct(y, Register::VF);
    assert(m2.reg(x) == m.reg(x));
    assert(m2.reg(y) == m.reg(y));
    assert(m2.ir() == m.ir());
    if m.ir() + n <= MEMORY_SIZE {
        lemma_rows_forget_vf(m, m2, m.reg(x), m.reg(y), m.ir() as nat, n as nat);
    }
}

} // verus!
