//! Descriptor capability traits: the contract any hardware descriptor format
//! must satisfy for this crate's ring initializers to drive it, together with
//! one simple reference format per direction.
//!
//! A descriptor record's binary layout is fixed by the hardware family and
//! opaque to this crate; the traits expose exactly what ring initialization
//! needs: the record size, the all-zero record fresh device memory holds, and
//! in-place initialization (with a buffer's physical address for receive,
//! with no argument for transmit).

use vstd::prelude::*;

verus! {

/// What any hardware descriptor record, receive or transmit, must provide.
pub trait Descriptor: Sized {
    /// The size in bytes of one record, as the hardware lays it out.
    spec fn record_size_spec() -> usize;

    /// The record all descriptor slots hold before initialization.
    spec fn zeroed_spec() -> Self;

    /// The size in bytes of one record.
    fn record_size() -> (r: usize)
        ensures
            r == Self::record_size_spec(),
    ;

    /// Builds the record all descriptor slots hold before initialization.
    fn zeroed() -> (r: Self)
        ensures
            r == Self::zeroed_spec(),
    ;
}

/// A receive descriptor: initialized with the physical address of the
/// receive buffer the device is to fill through it.
pub trait RxDescriptor: Descriptor {
    /// The physical buffer address the record holds.
    spec fn buffer_addr(&self) -> u64;

    /// Initializes the record in place to reference the buffer at
    /// `packet_buffer_address` and await the device.
    fn init(&mut self, packet_buffer_address: u64)
        ensures
            final(self).buffer_addr() == packet_buffer_address,
    ;
}

/// A transmit descriptor: initialized to its device-defined idle state, with
/// no buffer attached; buffers are attached per packet, later, by the
/// device-specific maintenance loop.
pub trait TxDescriptor: Descriptor {
    /// Whether the record is in its idle state, ready to accept a packet.
    spec fn is_idle(&self) -> bool;

    /// Initializes the record in place to its idle state.
    fn init(&mut self)
        ensures
            final(self).is_idle(),
    ;
}

/// A simple legacy-style receive descriptor: a 16-byte record holding the
/// buffer's physical address, and length/status fields the device fills on
/// packet completion.
#[derive(Clone, Copy, Debug, PartialEq, Eq, Structural)]
pub struct BasicRxDescriptor {
    /// Physical address of the attached receive buffer.
    pub addr: u64,
    /// Length of the received packet, written by the device.
    pub length: u16,
    /// Checksum of the received packet, written by the device.
    pub checksum: u16,
    /// Completion status, written by the device.
    pub status: u8,
    /// Receive errors, written by the device.
    pub errors: u8,
    /// VLAN information, written by the device.
    pub special: u16,
}

impl Descriptor for BasicRxDescriptor {
    open spec fn record_size_spec() -> usize {
        16
    }

    open spec fn zeroed_spec() -> Self {
        BasicRxDescriptor { addr: 0, length: 0, checksum: 0, status: 0, errors: 0, special: 0 }
    }

    fn record_size() -> usize {
        16
    }

    fn zeroed() -> Self {
        BasicRxDescriptor { addr: 0, length: 0, checksum: 0, status: 0, errors: 0, special: 0 }
    }
}

impl RxDescriptor for BasicRxDescriptor {
    open spec fn buffer_addr(&self) -> u64 {
        self.addr
    }

    fn init(&mut self, packet_buffer_address: u64) {
        self.addr = packet_buffer_address;
        self.length = 0;
        self.checksum = 0;
        self.status = 0;
        self.errors = 0;
        self.special = 0;
    }
}

/// A simple legacy-style transmit descriptor: a 16-byte record whose idle
/// state is all zeroes; the maintenance loop fills it per packet.
#[derive(Clone, Copy, Debug, PartialEq, Eq, Structural)]
pub struct BasicTxDescriptor {
    /// Physical address of the buffer to transmit, set per packet.
    pub addr: u64,
    /// Length in bytes of the packet to transmit.
    pub length: u16,
    /// Checksum offset.
    pub cso: u8,
    /// Command bits.
    pub cmd: u8,
    /// Transmit status, written by the device.
    pub status: u8,
    /// Checksum start.
    pub css: u8,
    /// VLAN information.
    pub special: u16,
}

impl Descriptor for BasicTxDescriptor {
    open spec fn record_size_spec() -> usize {
        16
    }

    open spec fn zeroed_spec() -> Self {
        BasicTxDescriptor { addr: 0, length: 0, cso: 0, cmd: 0, status: 0, css: 0, special: 0 }
    }

    fn record_size() -> usize {
        16
    }

    fn zeroed() -> Self {
        BasicTxDescriptor { addr: 0, length: 0, cso: 0, cmd: 0, status: 0, css: 0, special: 0 }
    }
}

impl TxDescriptor for BasicTxDescriptor {
    open spec fn is_idle(&self) -> bool {
        *self == Self::zeroed_spec()
    }

    fn init(&mut self) {
        self.addr = 0;
        self.length = 0;
        self.cso = 0;
        self.cmd = 0;
        self.status = 0;
        self.css = 0;
        self.special = 0;
    }
}

} // verus!
