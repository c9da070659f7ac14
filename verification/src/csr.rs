//! The control and status registers of a hart.

use vstd::prelude::*;
use crate::integer::Integer;
use crate::isa::CsrValues;
use crate::register::{Register, Register32, Register64, Xlen};

verus! {

/// The control and status registers for which a hart must provide storage.
/// The others are computed when they are read.
pub struct Csr<R: Register> {
    /// The identifier of the hart.
    pub mhartid: R,
    /// The base address of the trap vector and, in its low bits, the mode.
    pub mtvec: R,
    /// The exceptions delegated to lower modes.
    pub medeleg: R,
    /// The interrupts delegated to lower modes.
    pub mideleg: R,
    /// The interrupts that are enabled.
    pub mie: R,
    /// The interrupts that are pending.
    pub mip: R,
    /// The number of cycles that the hart has executed. As nothing is executed
    /// speculatively, it is the number of instructions retired as well.
    pub mcycle: Register64,
    /// The counters that lower modes may read.
    pub mcounteren: Register32,
    /// A scratch register for the machine mode.
    pub mscratch: R,
    /// The address of the instruction that was interrupted or raised an
    /// exception.
    pub mepc: R,
    /// The cause of the last trap.
    pub mcause: R,
    /// A value that depends on the cause, set when a trap is taken.
    pub mtval: R,
}

impl<R: Register> Csr<R> {
    /// The values that the registers hold.
    pub open spec fn view(&self) -> CsrValues {
        CsrValues {
            mhartid: self.mhartid.value(),
            mtvec: self.mtvec.value(),
            medeleg: self.medeleg.value(),
            mideleg: self.mideleg.value(),
            mie: self.mie.value(),
            mip: self.mip.value(),
            mcycle: self.mcycle.value(),
            mcounteren: self.mcounteren.value(),
            mscratch: self.mscratch.value(),
            mepc: self.mepc.value(),
            mcause: self.mcause.value(),
            mtval: self.mtval.value(),
        }
    }
}

impl<R: Register> Csr<R> {
    /// The registers of the hart with identifier `hart` before its first
    /// instruction: the trap vector is at `trap_address`, and every other
    /// register holds zero.
    pub fn new(hart: R::Unsigned, trap_address: R::Unsigned) -> (r: Self)
        ensures
            r@ == CsrValues::initial(hart.bits(), trap_address.bits()),
    {
        Self {
            mhartid: R::from_unsigned(hart),
            mtvec: R::from_unsigned(trap_address),
            medeleg: R::zero_extended_byte(0),
            mideleg: R::zero_extended_byte(0),
            mie: R::zero_extended_byte(0),
            mip: R::zero_extended_byte(0),
            mcycle: Register64::zero_extended_byte(0),
            mcounteren: Register32::zero_extended_byte(0),
            mscratch: R::zero_extended_byte(0),
            mepc: R::zero_extended_byte(0),
            mcause: R::zero_extended_byte(0),
            mtval: R::zero_extended_byte(0),
        }
    }
}

} // verus!
