use vstd::prelude::*;

pub mod chip8;
pub mod isa;
pub mod session;

verus! {

/// The address at which loaded programs begin.
pub const ROM_START: u16 = 0x200;

} // verus!
