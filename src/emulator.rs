use vstd::prelude::*;
use vstd::string::StringSliceAdditionalSpecFns;

use crate::instruction::Instruction;
use crate::loader::{
    LoadError, Store, apply_program, apply_stores, lemma_program_fits, parse_program,
    parse_program_spec,
};
use crate::machine::{
    Halt, Machine, cycle_spec, draw_pixel, draw_row, draw_rows, execute_spec, press_spec, run_spec,
    sprite_bit, sprite_target, tick_spec,
};
use crate::memory::{
    MEMORY_SIZE, Memory, SCREEN_HEIGHT, SCREEN_WIDTH, blank_screen, lemma_word_round_trip,
    pixel_index, with_word, word_at,
};
use crate::register::{Register, VF_OFFSET};

verus! {

/// Where programs begin: `PC` holds this address once a listing is loaded.
pub const PROGRAM_START: u16 = 0x200;

/// The machine right after loading a listing whose writes are `stores`.
pub open spec fn loaded_machine(stores: Seq<Store>) -> Machine {
    Machine {
        bytes: with_word(
            apply_stores(Seq::new(MEMORY_SIZE as nat, |_i: int| 0u8), stores),
            Register::PC.spec_offset() as int,
            PROGRAM_START,
        ),
        pixels: blank_screen(),
        delay: 0,
        waiting: None,
        halted: None,
    }
}

/// The CPU core: owns the memory (registers included) and the delay timer,
/// and runs the fetch-decode-execute cycle.
pub struct Chip8 {
    memory: Memory,
    delay_timer: u8,
    waiting: Option<Register>,
    halted: Option<Halt>,
}

impl View for Chip8 {
    type V = Machine;

    closed spec fn view(&self) -> Machine {
        Machine {
            bytes: self.memory.bytes(),
            pixels: self.memory.pixels(),
            delay: self.delay_timer,
            waiting: self.waiting,
            halted: self.halted,
        }
    }
}

impl Chip8 {
    /// Memory and framebuffer have their fixed sizes.
    pub open spec fn wf(&self) -> bool {
        self@.wf()
    }

    /// Builds a machine from a program listing: zeroed memory, the
    /// listing's writes applied in order, then `PC` set to `0x200`. A bad
    /// listing is refused whole, naming its first bad line.
    pub fn load_from_text(data: &str) -> (r: Result<Chip8, LoadError>)
        ensures
            match r {
                Ok(chip8) => chip8.wf() && parse_program_spec(data.spec_bytes()) is Ok
                    && chip8@ == loaded_machine(parse_program_spec(data.spec_bytes())->Ok_0),
                Err(e) => parse_program_spec(data.spec_bytes()) == Err::<Seq<Store>, LoadError>(e),
            },
    {
        let stores = match parse_program(data.as_bytes()) {
            Ok(stores) => stores,
            Err(e) => {
                return Err(e);
            },
        };
        proof {
            lemma_program_fits(data.spec_bytes());
        }
        let mut memory = Memory::new();
        apply_program(&mut memory, &stores);
        memory.set16(Register::PC.offset(), PROGRAM_START);
        Ok(Chip8::with_memory(memory))
    }

    /// A running machine over the given memory, with the timer at 0 and no
    /// key awaited.
    pub(crate) fn with_memory(memory: Memory) -> (r: Chip8)
        requires
            memory.wf(),
        ensures
            r.wf(),
            r@ == (Machine {
                bytes: memory.bytes(),
                pixels: memory.pixels(),
                delay: 0,
                waiting: None,
                halted: None,
            }),
    {
        Chip8 { memory, delay_timer: 0, waiting: None, halted: None }
    }

    /// Reads the word at `PC` and advances `PC` by 2.
    pub fn fetch(&mut self) -> (r: u16)
        requires
            old(self).wf(),
            old(self)@.pc() + 1 < MEMORY_SIZE,
        ensures
            final(self).wf(),
            r == word_at(old(self)@.bytes, old(self)@.pc() as int),
            final(self)@ == old(self)@.with_pc((old(self)@.pc() + 2) as u16),
            final(self)@.pc() == old(self)@.pc() + 2,
    {
        let pc = self.memory.get16(Register::PC.offset());
        let word = self.memory.get16(pc as usize);
        self.memory.set16(Register::PC.offset(), pc + 2);
        proof {
            lemma_word_round_trip(old(self)@.bytes, 0, (pc + 2) as u16);
        }
        word
    }

    /// Advances `PC` past the next instruction without reading it.
    fn skip(&mut self)
        requires
            old(self).wf(),
        ensures
            final(self).wf(),
            final(self)@ == old(self)@.skipped(),
    {
        let pc = self.memory.get16(Register::PC.offset());
        self.memory.set16(Register::PC.offset(), pc.wrapping_add(2));
    }

    /// Stores `value` in register `r`.
    fn set_reg(&mut self, r: Register, value: u8)
        requires
            old(self).wf(),
        ensures
            final(self).wf(),
            final(self)@ == old(self)@.with_reg(r, value),
    {
        self.memory.set8(r.offset(), value);
    }

    /// The value of register `r`.
    fn reg(&self, r: Register) -> (v: u8)
        requires
            self.wf(),
        ensures
            v == self@.reg(r),
    {
        self.memory.get8(r.offset())
    }

    /// Runs one decoded instruction. On an error nothing changes.
    pub fn execute(&mut self, instruction: Instruction) -> (r: Result<(), Halt>)
        requires
            old(self).wf(),
        ensures
            final(self).wf(),
            final(self)@.halted == old(self)@.halted,
            match r {
                Ok(()) => execute_spec(old(self)@, instruction) == Ok::<Machine, Halt>(final(self)@),
                Err(h) => execute_spec(old(self)@, instruction) == Err::<Machine, Halt>(h)
                    && final(self)@ == old(self)@,
            },
    {
        match instruction {
            Instruction::DRW(..) => self.draw_update(instruction),
            Instruction::LDDir(..)
            | Instruction::OR(..)
            | Instruction::AND(..)
            | Instruction::XOR(..)
            | Instruction::ADDDir(..)
            | Instruction::SUB(..)
            | Instruction::SHR(..)
            | Instruction::SUBN(..)
            | Instruction::SHL(..) => {
                self.execute_alu(instruction);
                Ok(())
            },
            Instruction::CLS | Instruction::JP(..) | Instruction::JPOff(..) => {
                self.execute_flow(instruction);
                Ok(())
            },
            Instruction::SEImm(..) | Instruction::SNE(..) | Instruction::SEDir(..) => {
                self.execute_skip(instruction);
                Ok(())
            },
            _ => {
                self.execute_load(instruction);
                Ok(())
            },
        }
    }

    /// The register-to-register arithmetic and logic of the `8XY_` family.
    #[verifier::rlimit(30)]
    fn execute_alu(&mut self, instruction: Instruction)
        requires
            old(self).wf(),
            instruction is LDDir || instruction is OR || instruction is AND || instruction is XOR
                || instruction is ADDDir || instruction is SUB || instruction is SHR
                || instruction is SUBN || instruction is SHL,
        ensures
            final(self).wf(),
            final(self)@.halted == old(self)@.halted,
            execute_spec(old(self)@, instruction) == Ok::<Machine, Halt>(final(self)@),
    {
        reveal(execute_spec);
        match instruction {
            Instruction::LDDir(vx, vy) => {
                let vy_value = self.reg(vy);
                self.set_reg(vx, vy_value);
            },
            Instruction::OR(vx, vy) => {
                let vx_value = self.reg(vx);
                let vy_value = self.reg(vy);
                self.set_reg(vx, vx_value | vy_value);
            },
            Instruction::AND(vx, vy) => {
                let vx_value = self.reg(vx);
                let vy_value = self.reg(vy);
                self.set_reg(vx, vx_value & vy_value);
            },
            Instruction::XOR(vx, vy) => {
                let vx_value = self.reg(vx);
                let vy_value = self.reg(vy);
                self.set_reg(vx, vx_value ^ vy_value);
            },
            Instruction::ADDDir(vx, vy) => {
                let vx_value = self.reg(vx);
                let vy_value = self.reg(vy);
                let sum = vx_value as u16 + vy_value as u16;
                self.set_reg(vx, (sum % 256) as u8);
                self.set_reg(Register::VF, if sum > 255 { 1 } else { 0 });
            },
            Instruction::SUB(vx, vy) => {
                let vx_value = self.reg(vx);
                let vy_value = self.reg(vy);
                let diff = ((vx_value as u16 + 256 - vy_value as u16) % 256) as u8;
                self.set_reg(vx, diff);
                // VF is 0 when a borrow occurred (Vx < Vy), else 1
                self.set_reg(Register::VF, if vx_value < vy_value { 0 } else { 1 });
            },
            Instruction::SHR(vx) => {
                let vx_value = self.reg(vx);
                self.set_reg(vx, vx_value / 2);
                self.set_reg(Register::VF, vx_value % 2);
            },
            Instruction::SUBN(vx, vy) => {
                let vx_value = self.reg(vx);
                let vy_value = self.reg(vy);
                let diff = ((vy_value as u16 + 256 - vx_value as u16) % 256) as u8;
                self.set_reg(vx, diff);
                self.set_reg(Register::VF, if vy_value < vx_value { 0 } else { 1 });
            },
            Instruction::SHL(vx) => {
                let vx_value = self.reg(vx);
                self.set_reg(vx, ((vx_value as u16 * 2) % 256) as u8);
                self.set_reg(Register::VF, vx_value / 128);
            },
            _ => {},
        }
    }

    /// Screen clearing and jumps.
    #[verifier::rlimit(30)]
    fn execute_flow(&mut self, instruction: Instruction)
        requires
            old(self).wf(),
            instruction is CLS || instruction is JP || instruction is JPOff,
        ensures
            final(self).wf(),
            final(self)@.halted == old(self)@.halted,
            execute_spec(old(self)@, instruction) == Ok::<Machine, Halt>(final(self)@),
    {
        reveal(execute_spec);
        match instruction {
            Instruction::CLS => {
                self.memory.clear_framebuffer();
            },
            Instruction::JP(nnn) => {
                self.memory.set16(Register::PC.offset(), nnn);
            },
            Instruction::JPOff(offset) => {
                let v0_value = self.reg(Register::V0) as u16;
                self.memory.set16(Register::PC.offset(), v0_value.wrapping_add(offset));
            },
            _ => {},
        }
    }

    /// The conditional skips.
    #[verifier::rlimit(30)]
    fn execute_skip(&mut self, instruction: Instruction)
        requires
            old(self).wf(),
            instruction is SEImm || instruction is SNE || instruction is SEDir,
        ensures
            final(self).wf(),
            final(self)@.halted == old(self)@.halted,
            execute_spec(old(self)@, instruction) == Ok::<Machine, Halt>(final(self)@),
    {
        reveal(execute_spec);
        match instruction {
            Instruction::SEImm(vx, nn) => {
                if self.reg(vx) == nn {
                    self.skip();
                }
            },
            Instruction::SNE(vx, nn) => {
                if self.reg(vx) != nn {
                    self.skip();
                }
            },
            Instruction::SEDir(vx, vy) => {
                if self.reg(vx) == self.reg(vy) {
                    self.skip();
                }
            },
            _ => {},
        }
    }

    /// Immediate loads, the index register, the delay timer and key waits.
    #[verifier::rlimit(30)]
    fn execute_load(&mut self, instruction: Instruction)
        requires
            old(self).wf(),
            instruction is LDImm || instruction is ADDImm || instruction is LDI
                || instruction is LDK || instruction is LDDT || instruction is LDVDT,
        ensures
            final(self).wf(),
            final(self)@.halted == old(self)@.halted,
            execute_spec(old(self)@, instruction) == Ok::<Machine, Halt>(final(self)@),
    {
        reveal(execute_spec);
        match instruction {
            Instruction::LDImm(vx, value) => {
                self.set_reg(vx, value);
            },
            Instruction::ADDImm(vx, value) => {
                let sum = ((self.reg(vx) as u16 + value as u16) % 256) as u8;
                self.set_reg(vx, sum);
            },
            Instruction::LDI(location) => {
                self.memory.set16(Register::IR.offset(), location);
            },
            Instruction::LDK(vx) => {
                self.waiting = Some(vx);
            },
            Instruction::LDDT(vx) => {
                self.delay_timer = self.reg(vx);
            },
            Instruction::LDVDT(vx) => {
                let delay = self.delay_timer;
                self.set_reg(vx, delay);
            },
            _ => {},
        }
    }

    /// Draws the sprite of a `DRW` instruction: each sprite bit is XORed
    /// into the framebuffer at wrapped coordinates, and `VF` is set, pixel by
    /// pixel, to whether that pixel went from set to unset. A sprite that
    /// would be read past the end of memory leaves everything unchanged.
    #[verifier::rlimit(30)]
    pub fn draw_update(&mut self, instruction: Instruction) -> (r: Result<(), Halt>)
        requires
            old(self).wf(),
            instruction is DRW,
        ensures
            final(self).wf(),
            final(self)@.halted == old(self)@.halted,
            match r {
                Ok(()) => execute_spec(old(self)@, instruction) == Ok::<Machine, Halt>(final(self)@),
                Err(h) => execute_spec(old(self)@, instruction) == Err::<Machine, Halt>(h)
                    && final(self)@ == old(self)@,
            },
    {
        reveal(execute_spec);
        let (vx, vy, height) = match instruction {
            Instruction::DRW(vx, vy, height) => (vx, vy, height),
            _ => {
                return Ok(());
            },
        };
        let x_position = self.reg(vx);
        let y_position = self.reg(vy);
        let index_location = self.memory.get16(Register::IR.offset());
        if index_location as usize + height as usize > MEMORY_SIZE {
            return Err(Halt::OutOfBounds(index_location));
        }
        let ghost start = self@;
        let mut i: u8 = 0;
        while i < height
            invariant
                self.wf(),
                start.wf(),
                0 <= i <= height,
                index_location as usize + height as usize <= MEMORY_SIZE,
                self@ == draw_rows(start, x_position, y_position, index_location as nat, i as nat),
                self.halted == old(self).halted,
            decreases height - i,
        {
            let ghost row_start = self@;
            let byte = self.memory.get8(index_location as usize + i as usize);
            let mut j: u8 = 0;
            while j < 8
                invariant
                    self.wf(),
                    0 <= j <= 8,
                    i < height,
                    self@ == draw_row(row_start, x_position, y_position, byte, i as nat, j as nat),
                    self.halted == old(self).halted,
                decreases 8 - j,
            {
                let x = ((x_position as usize + j as usize) % SCREEN_WIDTH) as u8;
                let y = ((y_position as usize + i as usize) % SCREEN_HEIGHT) as u8;
                let old_bit = self.memory.get8_framebuffer(x, y);
                let new_bit = old_bit ^ ((byte >> (7 - j)) & 1);
                // VF records whether this pixel goes from set to unset
                self.memory.set8(VF_OFFSET, if old_bit > new_bit { 1 } else { 0 });
                self.memory.set8_framebuffer(x, y, new_bit);
                proof {
                    assert(pixel_index(x as int, y as int) == sprite_target(
                        x_position,
                        y_position,
                        i as nat,
                        j as nat,
                    ));
                    assert(sprite_bit(byte, j as nat) == (byte >> (7 - j) as u8) & 1);
                    assert(self@ =~= draw_pixel(
                        draw_row(row_start, x_position, y_position, byte, i as nat, j as nat),
                        x_position,
                        y_position,
                        byte,
                        i as nat,
                        j as nat,
                    ));
                }
                j = j + 1;
            }
            i = i + 1;
        }
        Ok(())
    }

    /// One fetch-decode-execute cycle. A halted machine stays halted and
    /// reports why; while a key is awaited nothing happens. Otherwise the
    /// word at `PC` is fetched and `PC` advanced by 2; the word `0x0000` ends
    /// the program, an undecodable word or a failing instruction halts the
    /// machine, anything else is executed.
    pub fn cycle(&mut self) -> (r: Result<(), Halt>)
        requires
            old(self).wf(),
        ensures
            final(self).wf(),
            (final(self)@, r) == cycle_spec(old(self)@),
    {
        if let Some(h) = self.halted {
            return Err(h);
        }
        let r = self.step();
        if let Err(h) = r {
            self.halted = Some(h);
        }
        r
    }

    /// One cycle of a running machine, before a halt is recorded.
    #[verifier::rlimit(30)]
    fn step(&mut self) -> (r: Result<(), Halt>)
        requires
            old(self).wf(),
            old(self)@.halted is None,
        ensures
            final(self).wf(),
            final(self)@.halted is None,
            r is Ok ==> (final(self)@, r) == cycle_spec(old(self)@),
            r matches Err(h) ==> cycle_spec(old(self)@) == (
            Machine { halted: Some(h), ..final(self)@ },
            r,
            ),
    {
        if self.waiting.is_some() {
            return Ok(());
        }
        let pc = self.memory.get16(Register::PC.offset());
        if pc as usize + 1 >= MEMORY_SIZE {
            return Err(Halt::OutOfBounds(pc));
        }
        let next_instruction = self.fetch();
        if next_instruction == 0 {
            return Err(Halt::EndOfProgram);
        }
        match Instruction::decode(next_instruction) {
            Err(e) => Err(Halt::Unsupported(e)),
            Ok(instruction) => match self.execute(instruction) {
                Ok(()) => Ok(()),
                Err(h) => Err(h),
            },
        }
    }

    /// Runs up to `limit` cycles. Returns why the machine halted, or `None`
    /// when the limit was reached or a key press is awaited.
    #[verifier::rlimit(30)]
    pub fn run_cycles(&mut self, limit: u64) -> (r: Option<Halt>)
        requires
            old(self).wf(),
        ensures
            final(self).wf(),
            (final(self)@, r) == run_spec(old(self)@, limit as nat),
    {
        let mut done: u64 = 0;
        while done < limit
            invariant
                self.wf(),
                done <= limit,
                run_spec(old(self)@, limit as nat) == run_spec(self@, (limit - done) as nat),
            decreases limit - done,
        {
            if self.waiting.is_some() && self.halted.is_none() {
                return None;
            }
            let r = self.cycle();
            if let Err(h) = r {
                return Some(h);
            }
            done = done + 1;
        }
        None
    }

    /// Runs until the machine halts or waits for a key, with no display or
    /// input attached.
    pub fn test_run(&mut self) -> (r: Option<Halt>)
        requires
            old(self).wf(),
        ensures
            final(self).wf(),
            (final(self)@, r) == run_spec(old(self)@, u64::MAX as nat),
    {
        self.run_cycles(u64::MAX)
    }

    /// Why the machine halted, or `None` while it runs.
    pub fn halted(&self) -> (r: Option<Halt>)
        ensures
            r == self@.halted,
    {
        self.halted
    }

    /// Whether the machine is blocked on a key-wait instruction.
    pub fn waiting_for_key(&self) -> (r: bool)
        ensures
            r == self@.waiting is Some,
    {
        self.waiting.is_some()
    }

    /// Delivers a pressed key: if a key is awaited its code goes into the
    /// awaiting register and the machine resumes; otherwise it is ignored.
    pub fn press_key(&mut self, key: u8)
        requires
            old(self).wf(),
        ensures
            final(self).wf(),
            final(self)@ == press_spec(old(self)@, key),
    {
        if let Some(r) = self.waiting {
            self.set_reg(r, key);
            self.waiting = None;
        }
    }

    /// One period of the delay timer: decrement it unless it is already 0.
    pub fn tick_timer(&mut self)
        requires
            old(self).wf(),
        ensures
            final(self).wf(),
            final(self)@ == tick_spec(old(self)@),
    {
        if self.delay_timer > 0 {
            self.delay_timer = self.delay_timer - 1;
        }
    }

    /// The current value of the delay timer.
    pub fn delay_timer(&self) -> (r: u8)
        ensures
            r == self@.delay,
    {
        self.delay_timer
    }

    /// Read access to memory and framebuffer, for display.
    pub fn memory(&self) -> (r: &Memory)
        ensures
            r.bytes() == self@.bytes,
            r.pixels() == self@.pixels,
    {
        &self.memory
    }

    // helpers for inspecting the machine
    /// The big-endian word at `index` and `index + 1`.
    pub fn get16(&self, index: usize) -> (r: u16)
        requires
            self.wf(),
            index + 1 < MEMORY_SIZE,
        ensures
            r == word_at(self@.bytes, index as int),
    {
        self.memory.get16(index)
    }

    /// The byte at `index`.
    pub fn get8(&self, index: usize) -> (r: u8)
        requires
            self.wf(),
            index < MEMORY_SIZE,
        ensures
            r == self@.bytes[index as int],
    {
        self.memory.get8(index)
    }
}

} // verus!
