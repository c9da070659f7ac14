//! A single RISC-V hart: its registers, the decoding of instructions and
//! their execution, one instruction at a time.
//!
//! To run a program, implement [`Mmu`] for the memory of the system, create a
//! [`Core`] over [`Register32`] or [`Register64`], and call
//! [`Core::execute`] for every step.
//!
//! What the hart does is stated in [`isa`] over mathematical integers, and
//! the executable code is verified against it.

pub mod arithmetic;
pub mod integer;
pub mod register;
pub mod variant;
pub mod version;
pub mod isa;
pub mod csr;
pub mod system;

pub use register::{Register, Register32, Register64};
pub use system::{Core, Mmu};
