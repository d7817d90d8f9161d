//! The DWARF location-expression decoder: from the raw byte sequence of
//! a `DW_AT_location` attribute to the register or frame offset that
//! holds a formal parameter.  Three opcode forms are recognized:
//! `DW_OP_reg0` through `DW_OP_reg31`, `DW_OP_regx`, and `DW_OP_fbreg`.

use vstd::prelude::*;

use crate::consts::DW_OP_fbreg;
use crate::consts::DW_OP_reg0;
use crate::consts::DW_OP_reg31;
use crate::consts::DW_OP_regx;
use crate::consts::X86Register;
use crate::consts::reg_of_number;
use crate::consts::reg_number;
use crate::varint;
use crate::varint::sleb_ok;
use crate::varint::uleb_ok;

verus! {

/// Where an argument lives at function entry: in a general-purpose
/// register, or at a signed byte offset from the frame base.
#[derive(Debug, Copy, Clone, PartialEq, Eq, Structural)]
pub enum ArgumentLocation {
    Register(X86Register),
    FrameOffset(i64),
}

/// Why a location expression failed to decode: the bytes are not one of
/// the recognized opcode forms, or they name a register outside the
/// sixteen-register enumeration.
#[derive(Debug, Copy, Clone, PartialEq, Eq, Structural)]
pub enum LocationError {
    InvalidLocation,
    InvalidRegister(u64),
}

/// What decoding the location expression `s` yields.  The first byte
/// selects the form; bytes after the consumed operand are ignored.
pub open spec fn spec_decode_location(s: Seq<u8>) -> Result<ArgumentLocation, LocationError> {
    if s.len() == 0 {
        Err(LocationError::InvalidLocation)
    } else if s[0] == DW_OP_regx {
        match uleb_ok(s.skip(1)) {
            None => Err(LocationError::InvalidLocation),
            Some((v, _)) => if v <= 15 {
                Ok(ArgumentLocation::Register(reg_of_number(v)))
            } else {
                Err(LocationError::InvalidRegister(v))
            },
        }
    } else if s[0] == DW_OP_fbreg {
        match sleb_ok(s.skip(1)) {
            None => Err(LocationError::InvalidLocation),
            Some((v, _)) => Ok(ArgumentLocation::FrameOffset(v)),
        }
    } else if DW_OP_reg0 <= s[0] <= DW_OP_reg31 {
        let n = (s[0] - DW_OP_reg0) as u64;
        if n <= 15 {
            Ok(ArgumentLocation::Register(reg_of_number(n)))
        } else {
            Err(LocationError::InvalidRegister(n))
        }
    } else {
        Err(LocationError::InvalidLocation)
    }
}

/// Decode a single DWARF location expression.  Every malformed input
/// is a typed error: an empty slice, an unrecognized first byte, or a
/// truncated or oversized LEB128 operand is `InvalidLocation`, and a
/// register number outside 0 through 15 is `InvalidRegister`.
pub fn convert_dw_at_location(dwarf_loc: &[u8]) -> (r: Result<ArgumentLocation, LocationError>)
    ensures
        r == spec_decode_location(dwarf_loc@),
{
    if dwarf_loc.len() < 1 {
        return Err(LocationError::InvalidLocation);
    }
    let b = dwarf_loc[0];
    if b == DW_OP_regx {
        let operand = &dwarf_loc[1..dwarf_loc.len()];
        proof {
            assert(operand@ =~= dwarf_loc@.skip(1));
        }
        match varint::decode_unsigned(operand) {
            None => Err(LocationError::InvalidLocation),
            Some((register_number, _)) => {
                match X86Register::from_u64(register_number) {
                    Some(register) => Ok(ArgumentLocation::Register(register)),
                    None => Err(LocationError::InvalidRegister(register_number)),
                }
            },
        }
    } else if b == DW_OP_fbreg {
        let operand = &dwarf_loc[1..dwarf_loc.len()];
        proof {
            assert(operand@ =~= dwarf_loc@.skip(1));
        }
        match varint::decode_signed(operand) {
            None => Err(LocationError::InvalidLocation),
            Some((offset, _)) => Ok(ArgumentLocation::FrameOffset(offset)),
        }
    } else if DW_OP_reg0 <= b && b <= DW_OP_reg31 {
        // the opcode itself carries the register number
        let register_number = (b - DW_OP_reg0) as u64;
        match X86Register::from_u64(register_number) {
            Some(register) => Ok(ArgumentLocation::Register(register)),
            None => Err(LocationError::InvalidRegister(register_number)),
        }
    } else {
        Err(LocationError::InvalidLocation)
    }
}

/// One-byte register opcodes that name one of the sixteen registers
/// decode to that register: for `b` in `[0x50, 0x5f]`, the expression
/// `[b]` yields the register with DWARF number `b - 0x50`.  (From
/// `0x60` on, the named register falls outside the enumeration and the
/// decode fails with `InvalidRegister` instead.)
pub proof fn lemma_short_register_opcode(b: u8)
    requires
        0x50 <= b <= 0x5f,
    ensures
        spec_decode_location(seq![b]) == Ok::<ArgumentLocation, LocationError>(
            ArgumentLocation::Register(reg_of_number((b - 0x50) as u64)),
        ),
        reg_number(reg_of_number((b - 0x50) as u64)) == b - 0x50,
{
}

/// An empty expression, or one whose first byte is none of the
/// recognized opcodes, fails with `InvalidLocation`.
pub proof fn lemma_unrecognized_opcode(s: Seq<u8>)
    requires
        s.len() == 0 || !(0x50 <= s[0] <= 0x6f || s[0] == 0x90 || s[0] == 0x91),
    ensures
        spec_decode_location(s) == Err::<ArgumentLocation, LocationError>(
            LocationError::InvalidLocation,
        ),
{
}

} // verus!
