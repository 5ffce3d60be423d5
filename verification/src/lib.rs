//! Verified core of a binary-size inspector: it models the symbols,
//! sections and loadable segments of a compiled executable, demangles and
//! attributes symbol names, parses the memory regions of a linker script,
//! and correlates segment data against those regions.

pub mod args;
pub mod attr_str;
pub mod cargo;
pub mod demangle;
pub mod exe;
pub mod link;
pub mod output;
pub mod rex;
pub mod strutil;
pub mod table;
pub mod util;
