//! Register-block capability traits: the setters a hardware family's receive
//! and transmit queue registers must expose for this crate's ring
//! initializers to program them, together with a software register file that
//! simply records what was written.
//!
//! The initializers only ever write these registers — they establish ring
//! state rather than observe device progress — so each trait is specified by
//! the values last written to its five registers.

use vstd::prelude::*;

verus! {

/// The programmed values of a receive queue's registers: descriptor-ring
/// base address low/high words, ring length in bytes, head and tail indices.
#[derive(Clone, Copy, Debug, PartialEq, Eq, Structural)]
pub struct RxRegisterValues {
    /// Ring base address, low 32 bits.
    pub rdbal: u32,
    /// Ring base address, high 32 bits.
    pub rdbah: u32,
    /// Ring length in bytes.
    pub rdlen: u32,
    /// Head index.
    pub rdh: u32,
    /// Tail index.
    pub rdt: u32,
}

/// The programmed values of a transmit queue's registers; the fields mirror
/// [`RxRegisterValues`].
#[derive(Clone, Copy, Debug, PartialEq, Eq, Structural)]
pub struct TxRegisterValues {
    /// Ring base address, low 32 bits.
    pub tdbal: u32,
    /// Ring base address, high 32 bits.
    pub tdbah: u32,
    /// Ring length in bytes.
    pub tdlen: u32,
    /// Head index.
    pub tdh: u32,
    /// Tail index.
    pub tdt: u32,
}

/// The registers needed to set up a receive queue. Each setter programs its
/// register and leaves the other four as they were.
pub trait RxQueueRegisters {
    /// The values last written to the five receive-queue registers.
    spec fn reg_state(&self) -> RxRegisterValues;

    /// Programs the ring base address's low 32 bits.
    fn set_rdbal(&mut self, value: u32)
        ensures
            final(self).reg_state() == (RxRegisterValues { rdbal: value, ..old(self).reg_state() }),
    ;

    /// Programs the ring base address's high 32 bits.
    fn set_rdbah(&mut self, value: u32)
        ensures
            final(self).reg_state() == (RxRegisterValues { rdbah: value, ..old(self).reg_state() }),
    ;

    /// Programs the ring length in bytes.
    fn set_rdlen(&mut self, value: u32)
        ensures
            final(self).reg_state() == (RxRegisterValues { rdlen: value, ..old(self).reg_state() }),
    ;

    /// Programs the head index.
    fn set_rdh(&mut self, value: u32)
        ensures
            final(self).reg_state() == (RxRegisterValues { rdh: value, ..old(self).reg_state() }),
    ;

    /// Programs the tail index.
    fn set_rdt(&mut self, value: u32)
        ensures
            final(self).reg_state() == (RxRegisterValues { rdt: value, ..old(self).reg_state() }),
    ;
}

/// The registers needed to set up a transmit queue. Each setter programs its
/// register and leaves the other four as they were.
pub trait TxQueueRegisters {
    /// The values last written to the five transmit-queue registers.
    spec fn reg_state(&self) -> TxRegisterValues;

    /// Programs the ring base address's low 32 bits.
    fn set_tdbal(&mut self, value: u32)
        ensures
            final(self).reg_state() == (TxRegisterValues { tdbal: value, ..old(self).reg_state() }),
    ;

    /// Programs the ring base address's high 32 bits.
    fn set_tdbah(&mut self, value: u32)
        ensures
            final(self).reg_state() == (TxRegisterValues { tdbah: value, ..old(self).reg_state() }),
    ;

    /// Programs the ring length in bytes.
    fn set_tdlen(&mut self, value: u32)
        ensures
            final(self).reg_state() == (TxRegisterValues { tdlen: value, ..old(self).reg_state() }),
    ;

    /// Programs the head index.
    fn set_tdh(&mut self, value: u32)
        ensures
            final(self).reg_state() == (TxRegisterValues { tdh: value, ..old(self).reg_state() }),
    ;

    /// Programs the tail index.
    fn set_tdt(&mut self, value: u32)
        ensures
            final(self).reg_state() == (TxRegisterValues { tdt: value, ..old(self).reg_state() }),
    ;
}

/// A software receive register file: records the values written, for tests,
/// hosted simulation, and drivers that shadow their hardware writes.
pub struct RxRegisterFile {
    values: RxRegisterValues,
}

impl RxRegisterFile {
    /// A register file with all five registers zero.
    pub fn new() -> (r: Self)
        ensures
            r.reg_state() == (RxRegisterValues { rdbal: 0, rdbah: 0, rdlen: 0, rdh: 0, rdt: 0 }),
    {
        RxRegisterFile { values: RxRegisterValues { rdbal: 0, rdbah: 0, rdlen: 0, rdh: 0, rdt: 0 } }
    }

    /// The recorded ring base address, low 32 bits.
    pub fn rdbal(&self) -> (r: u32)
        ensures
            r == self.reg_state().rdbal,
    {
        self.values.rdbal
    }

    /// The recorded ring base address, high 32 bits.
    pub fn rdbah(&self) -> (r: u32)
        ensures
            r == self.reg_state().rdbah,
    {
        self.values.rdbah
    }

    /// The recorded ring length in bytes.
    pub fn rdlen(&self) -> (r: u32)
        ensures
            r == self.reg_state().rdlen,
    {
        self.values.rdlen
    }

    /// The recorded head index.
    pub fn rdh(&self) -> (r: u32)
        ensures
            r == self.reg_state().rdh,
    {
        self.values.rdh
    }

    /// The recorded tail index.
    pub fn rdt(&self) -> (r: u32)
        ensures
            r == self.reg_state().rdt,
    {
        self.values.rdt
    }
}

impl RxQueueRegisters for RxRegisterFile {
    closed spec fn reg_state(&self) -> RxRegisterValues {
        self.values
    }

    fn set_rdbal(&mut self, value: u32) {
        self.values.rdbal = value;
    }

    fn set_rdbah(&mut self, value: u32) {
        self.values.rdbah = value;
    }

    fn set_rdlen(&mut self, value: u32) {
        self.values.rdlen = value;
    }

    fn set_rdh(&mut self, value: u32) {
        self.values.rdh = value;
    }

    fn set_rdt(&mut self, value: u32) {
        self.values.rdt = value;
    }
}

/// A software transmit register file: records the values written, for tests,
/// hosted simulation, and drivers that shadow their hardware writes.
pub struct TxRegisterFile {
    values: TxRegisterValues,
}

impl TxRegisterFile {
    /// A register file with all five registers zero.
    pub fn new() -> (r: Self)
        ensures
            r.reg_state() == (TxRegisterValues { tdbal: 0, tdbah: 0, tdlen: 0, tdh: 0, tdt: 0 }),
    {
        TxRegisterFile { values: TxRegisterValues { tdbal: 0, tdbah: 0, tdlen: 0, tdh: 0, tdt: 0 } }
    }

    /// The recorded ring base address, low 32 bits.
    pub fn tdbal(&self) -> (r: u32)
        ensures
            r == self.reg_state().tdbal,
    {
        self.values.tdbal
    }

    /// The recorded ring base address, high 32 bits.
    pub fn tdbah(&self) -> (r: u32)
        ensures
            r == self.reg_state().tdbah,
    {
        self.values.tdbah
    }

    /// The recorded ring length in bytes.
    pub fn tdlen(&self) -> (r: u32)
        ensures
            r == self.reg_state().tdlen,
    {
        self.values.tdlen
    }

    /// The recorded head index.
    pub fn tdh(&self) -> (r: u32)
        ensures
            r == self.reg_state().tdh,
    {
        self.values.tdh
    }

    /// The recorded tail index.
    pub fn tdt(&self) -> (r: u32)
        ensures
            r == self.reg_state().tdt,
    {
        self.values.tdt
    }
}

impl TxQueueRegisters for TxRegisterFile {
    closed spec fn reg_state(&self) -> TxRegisterValues {
        self.values
    }

    fn set_tdbal(&mut self, value: u32) {
        self.values.tdbal = value;
    }

    fn set_tdbah(&mut self, value: u32) {
        self.values.tdbah = value;
    }

    fn set_tdlen(&mut self, value: u32) {
        self.values.tdlen = value;
    }

    fn set_tdh(&mut self, value: u32) {
        self.values.tdh = value;
    }

    fn set_tdt(&mut self, value: u32) {
        self.values.tdt = value;
    }
}

} // verus!
