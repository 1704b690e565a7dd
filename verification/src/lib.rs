//! Decoding of the fixed header of a 16-bit DOS ("MZ") executable and
//! location of the regions that the header describes inside a byte buffer.
//!
//! Every function is verified: decoding states exactly which header or error
//! comes back, and each region accessor states exactly which bytes it borrows.

pub mod header;
pub mod words;
