//! DWARF location-expression opcodes and the sixteen general-purpose
//! registers of the x86-64 calling convention, in DWARF register-number
//! order.

use vstd::prelude::*;

verus! {

/// `DW_OP_regx`: a register number follows as an unsigned LEB128 integer.
pub const DW_OP_regx: u8 = 0x90;

/// `DW_OP_fbreg`: a frame-base offset follows as a signed LEB128 integer.
pub const DW_OP_fbreg: u8 = 0x91;

/// `DW_OP_reg0`, the first of the one-byte register opcodes.
pub const DW_OP_reg0: u8 = 0x50;

/// `DW_OP_reg31`, the last of the one-byte register opcodes.
pub const DW_OP_reg31: u8 = 0x6f;

/// The general-purpose registers of x86-64, ordered by their DWARF
/// register numbers 0 through 15.
#[allow(non_camel_case_types)]
#[derive(Debug, Copy, Clone, PartialEq, Eq, Structural)]
pub enum X86Register {
    rax,
    rdx,
    rcx,
    rbx,
    rsi,
    rdi,
    rbp,
    rsp,
    r8,
    r9,
    r10,
    r11,
    r12,
    r13,
    r14,
    r15,
}

/// The DWARF register number of a general-purpose register.
pub open spec fn reg_number(r: X86Register) -> u64 {
    match r {
        X86Register::rax => 0,
        X86Register::rdx => 1,
        X86Register::rcx => 2,
        X86Register::rbx => 3,
        X86Register::rsi => 4,
        X86Register::rdi => 5,
        X86Register::rbp => 6,
        X86Register::rsp => 7,
        X86Register::r8 => 8,
        X86Register::r9 => 9,
        X86Register::r10 => 10,
        X86Register::r11 => 11,
        X86Register::r12 => 12,
        X86Register::r13 => 13,
        X86Register::r14 => 14,
        X86Register::r15 => 15,
    }
}

/// The general-purpose register with DWARF number `n`, for `n <= 15`.
pub open spec fn reg_of_number(n: u64) -> X86Register {
    if n == 0 {
        X86Register::rax
    } else if n == 1 {
        X86Register::rdx
    } else if n == 2 {
        X86Register::rcx
    } else if n == 3 {
        X86Register::rbx
    } else if n == 4 {
        X86Register::rsi
    } else if n == 5 {
        X86Register::rdi
    } else if n == 6 {
        X86Register::rbp
    } else if n == 7 {
        X86Register::rsp
    } else if n == 8 {
        X86Register::r8
    } else if n == 9 {
        X86Register::r9
    } else if n == 10 {
        X86Register::r10
    } else if n == 11 {
        X86Register::r11
    } else if n == 12 {
        X86Register::r12
    } else if n == 13 {
        X86Register::r13
    } else if n == 14 {
        X86Register::r14
    } else {
        X86Register::r15
    }
}

impl X86Register {
    /// Look a register up by its DWARF register number; numbers outside
    /// the sixteen-register enumeration have no register.
    pub fn from_u64(n: u64) -> (r: Option<X86Register>)
        ensures
            r == (if n <= 15 {
                Some(reg_of_number(n))
            } else {
                None::<X86Register>
            }),
    {
        if n == 0 {
            Some(X86Register::rax)
        } else if n == 1 {
            Some(X86Register::rdx)
        } else if n == 2 {
            Some(X86Register::rcx)
        } else if n == 3 {
            Some(X86Register::rbx)
        } else if n == 4 {
            Some(X86Register::rsi)
        } else if n == 5 {
            Some(X86Register::rdi)
        } else if n == 6 {
            Some(X86Register::rbp)
        } else if n == 7 {
            Some(X86Register::rsp)
        } else if n == 8 {
            Some(X86Register::r8)
        } else if n == 9 {
            Some(X86Register::r9)
        } else if n == 10 {
            Some(X86Register::r10)
        } else if n == 11 {
            Some(X86Register::r11)
        } else if n == 12 {
            Some(X86Register::r12)
        } else if n == 13 {
            Some(X86Register::r13)
        } else if n == 14 {
            Some(X86Register::r14)
        } else if n == 15 {
            Some(X86Register::r15)
        } else {
            None
        }
    }

    /// The DWARF register number of this register.
    pub fn number(&self) -> (n: u64)
        ensures
            n == reg_number(*self),
            n <= 15,
    {
        match self {
            X86Register::rax => 0,
            X86Register::rdx => 1,
            X86Register::rcx => 2,
            X86Register::rbx => 3,
            X86Register::rsi => 4,
            X86Register::rdi => 5,
            X86Register::rbp => 6,
            X86Register::rsp => 7,
            X86Register::r8 => 8,
            X86Register::r9 => 9,
            X86Register::r10 => 10,
            X86Register::r11 => 11,
            X86Register::r12 => 12,
            X86Register::r13 => 13,
            X86Register::r14 => 14,
            X86Register::r15 => 15,
        }
    }
}

} // verus!
