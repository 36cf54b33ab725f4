use vstd::prelude::*;

verus! {

/// The named registers of the machine, each living at a fixed byte offset of
/// the memory (see [`Register::offset`]).
#[allow(non_camel_case_types)]
#[derive(Debug, PartialEq, Eq, Structural, Clone, Copy)]
pub enum Register {
    /// Program counter, 16 bits wide.
    PC,
    /// Index register, 16 bits wide.
    IR,
    V0,
    V1,
    V2,
    V3,
    V4,
    V5,
    V6,
    V7,
    V8,
    V9,
    VA,
    VB,
    VC,
    VD,
    VE,
    /// The flag register: carry, borrow and collision results land here.
    VF,
    /// Reserved slot after the general registers; the delay timer itself is
    /// held by the CPU core.
    DELAY_TIMER,
}

/// Memory offset of the first general-purpose register `V0`.
pub const V_BASE: usize = 4;

/// Memory offset of the flag register `VF`.
pub const VF_OFFSET: usize = 19;

impl Register {
    /// The byte offset of the register in memory: `PC` at 0, `IR` at 2,
    /// `V0..VF` at 4..19, the delay-timer slot at 20.
    pub open spec fn spec_offset(self) -> nat {
        match self {
            Register::PC => 0,
            Register::IR => 2,
            Register::V0 => 4,
            Register::V1 => 5,
            Register::V2 => 6,
            Register::V3 => 7,
            Register::V4 => 8,
            Register::V5 => 9,
            Register::V6 => 10,
            Register::V7 => 11,
            Register::V8 => 12,
            Register::V9 => 13,
            Register::VA => 14,
            Register::VB => 15,
            Register::VC => 16,
            Register::VD => 17,
            Register::VE => 18,
            Register::VF => 19,
            Register::DELAY_TIMER => 20,
        }
    }

    /// The general-purpose register `V<n>`.
    pub open spec fn spec_v(n: nat) -> Register
        recommends
            n < 16,
    {
        if n == 0 {
            Register::V0
        } else if n == 1 {
            Register::V1
        } else if n == 2 {
            Register::V2
        } else if n == 3 {
            Register::V3
        } else if n == 4 {
            Register::V4
        } else if n == 5 {
            Register::V5
        } else if n == 6 {
            Register::V6
        } else if n == 7 {
            Register::V7
        } else if n == 8 {
            Register::V8
        } else if n == 9 {
            Register::V9
        } else if n == 10 {
            Register::VA
        } else if n == 11 {
            Register::VB
        } else if n == 12 {
            Register::VC
        } else if n == 13 {
            Register::VD
        } else if n == 14 {
            Register::VE
        } else {
            Register::VF
        }
    }

    /// The byte offset of this register in memory.
    pub fn offset(self) -> (r: usize)
        ensures
            r == self.spec_offset(),
    {
        match self {
            Register::PC => 0,
            Register::IR => 2,
            Register::V0 => 4,
            Register::V1 => 5,
            Register::V2 => 6,
            Register::V3 => 7,
            Register::V4 => 8,
            Register::V5 => 9,
            Register::V6 => 10,
            Register::V7 => 11,
            Register::V8 => 12,
            Register::V9 => 13,
            Register::VA => 14,
            Register::VB => 15,
            Register::VC => 16,
            Register::VD => 17,
            Register::VE => 18,
            Register::VF => 19,
            Register::DELAY_TIMER => 20,
        }
    }

    /// The general-purpose register `V<number>`, for `number` in `0..16`.
    pub fn v_register_from(number: u8) -> (r: Register)
        requires
            number < 16,
        ensures
            r == Register::spec_v(number as nat),
            r.spec_offset() == V_BASE + number,
    {
        match number {
            0 => Register::V0,
            1 => Register::V1,
            2 => Register::V2,
            3 => Register::V3,
            4 => Register::V4,
            5 => Register::V5,
            6 => Register::V6,
            7 => Register::V7,
            8 => Register::V8,
            9 => Register::V9,
            10 => Register::VA,
            11 => Register::VB,
            12 => Register::VC,
            13 => Register::VD,
            14 => Register::VE,
            _ => Register::VF,
        }
    }
}

/// Distinct registers sit at distinct offsets.
pub proof fn lemma_offsets_distinct(a: Register, b: Register)
    ensures
        a.spec_offset() == b.spec_offset() <==> a == b,
{
}

} // verus!
