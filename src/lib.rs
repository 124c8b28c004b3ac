//! Discovery and validation of the ACPI root tables in a window of physical
//! memory: a byte-pattern scanner, an XOR checksum, and typed overlays of the
//! root pointer, the root table and the fixed hardware description table.

pub mod mem_utils;
pub mod rsdp;
pub mod sdt;
