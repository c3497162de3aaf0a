//! Odd-even transposition sorting of fixed-width scalar buffers, organised as
//! the data-parallel phases that an accelerator runs, with a parallel
//! non-decreasing order check.

pub mod device;
pub mod laws;
pub mod memory;
pub mod memory_ext;
pub mod phases;
pub mod scalar;
pub mod sorting;
