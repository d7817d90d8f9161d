//! Extraction of function-signature metadata from the DWARF debug
//! information of an x86-64 executable: for each subprogram entry, its
//! name, entry address, and the register or frame offset that holds each
//! formal parameter.
//!
//! The host supplies the parsed debug-information entries and the raw
//! `.debug_str` section; this crate decodes location expressions,
//! resolves names, and assembles the ordered function records.

pub mod consts;
pub mod dwarf_utils;
pub mod entries;
pub mod extract;
pub mod strings;
pub mod varint;

pub use consts::DW_OP_fbreg;
pub use consts::DW_OP_reg0;
pub use consts::DW_OP_reg31;
pub use consts::DW_OP_regx;
pub use consts::X86Register;
pub use dwarf_utils::ArgumentLocation;
pub use dwarf_utils::LocationError;
pub use dwarf_utils::convert_dw_at_location;
pub use entries::AttrKind;
pub use entries::AttrValue;
pub use entries::CompilationUnit;
pub use entries::ChildEntry;
pub use entries::DebugEntry;
pub use entries::DieAttr;
pub use entries::DieTag;
pub use extract::Argument;
pub use extract::ExtractionError;
pub use extract::Function;
pub use extract::extract_functions;
pub use extract::get_function_from_dwarf_entry;
pub use extract::process_function_child;
pub use strings::StringTable;
