//! Serial-port bookkeeping that is plain data: identifiers for the standard
//! COM ports, the events that can trigger a serial-port interrupt, and the
//! take-once cell drivers use to hand out singleton device instances.
//!
//! The hardware side of a serial-port driver — register access, transmit and
//! receive — belongs to the device-specific layer, not to this crate.

use vstd::prelude::*;
use vstd::string::StrSliceExecFns;

verus! {

/// COM serial ports enumeration.
#[derive(Copy, Clone, Debug, PartialEq, Eq, Structural)]
pub enum SerialPortAddress {
    /// The first COM port.
    COM1,
    /// The second COM port.
    COM2,
    /// The third COM port.
    COM3,
    /// The fourth COM port.
    COM4,
}

/// Whether `s` spells the name of the COM port with the given digit, ASCII
/// case-insensitively: "COM" in any mixture of case, then the digit.
pub open spec fn spells_com_port(s: Seq<char>, digit: char) -> bool {
    &&& s.len() == 4
    &&& (s[0] == 'C' || s[0] == 'c')
    &&& (s[1] == 'O' || s[1] == 'o')
    &&& (s[2] == 'M' || s[2] == 'm')
    &&& s[3] == digit
}

impl SerialPortAddress {
    /// Parses a COM port name, ASCII case-insensitively: exactly "COM1"
    /// through "COM4", in any mixture of case; anything else is rejected.
    pub fn try_from(s: &str) -> (r: Result<SerialPortAddress, ()>)
        ensures
            r == Ok::<SerialPortAddress, ()>(SerialPortAddress::COM1) <==> spells_com_port(
                s@,
                '1',
            ),
            r == Ok::<SerialPortAddress, ()>(SerialPortAddress::COM2) <==> spells_com_port(
                s@,
                '2',
            ),
            r == Ok::<SerialPortAddress, ()>(SerialPortAddress::COM3) <==> spells_com_port(
                s@,
                '3',
            ),
            r == Ok::<SerialPortAddress, ()>(SerialPortAddress::COM4) <==> spells_com_port(
                s@,
                '4',
            ),
            r is Err <==> !(spells_com_port(s@, '1') || spells_com_port(s@, '2')
                || spells_com_port(s@, '3') || spells_com_port(s@, '4')),
    {
        if s.unicode_len() != 4 {
            return Err(());
        }
        let c0 = s.get_char(0);
        let c1 = s.get_char(1);
        let c2 = s.get_char(2);
        if !((c0 == 'C' || c0 == 'c') && (c1 == 'O' || c1 == 'o') && (c2 == 'M' || c2 == 'm')) {
            return Err(());
        }
        match s.get_char(3) {
            '1' => Ok(SerialPortAddress::COM1),
            '2' => Ok(SerialPortAddress::COM2),
            '3' => Ok(SerialPortAddress::COM3),
            '4' => Ok(SerialPortAddress::COM4),
            _ => Err(()),
        }
    }
}

/// The types of events that can trigger an interrupt on a serial port.
#[derive(Copy, Clone, Debug, PartialEq, Eq, Structural)]
pub enum SerialPortInterruptEvent {
    /// Data has been received.
    DataReceived,
    /// The transmitter is empty.
    TransmitterEmpty,
    /// An error or break occurred.
    ErrorOrBreak,
    /// The port's status changed.
    StatusChange,
}

impl SerialPortInterruptEvent {
    /// The bit this event occupies in an interrupt-enable register.
    pub fn bitmask(&self) -> (r: u8)
        ensures
            r == (match *self {
                SerialPortInterruptEvent::DataReceived => 1u8,
                SerialPortInterruptEvent::TransmitterEmpty => 2u8,
                SerialPortInterruptEvent::ErrorOrBreak => 4u8,
                SerialPortInterruptEvent::StatusChange => 8u8,
            }),
    {
        match self {
            SerialPortInterruptEvent::DataReceived => 1,
            SerialPortInterruptEvent::TransmitterEmpty => 2,
            SerialPortInterruptEvent::ErrorOrBreak => 4,
            SerialPortInterruptEvent::StatusChange => 8,
        }
    }
}

/// Ensures that an object of type `T` is initialized only once, but still
/// allows a caller to take ownership of the object.
pub enum TriState<T> {
    /// The object has not been initialized yet.
    Uninited,
    /// The object is initialized and available.
    Inited(T),
    /// The object was initialized and has been taken.
    Taken,
}

impl<T> TriState<T> {
    /// Takes the object if it is initialized and available, leaving `Taken`
    /// behind; otherwise returns nothing and leaves the state unchanged.
    pub fn take(&mut self) -> (r: Option<T>)
        ensures
            (match *old(self) {
                TriState::Inited(v) => r == Some(v) && *final(self) is Taken,
                _ => r is None && *final(self) == *old(self),
            }),
    {
        let mut taken = TriState::Taken;
        core::mem::swap(self, &mut taken);
        match taken {
            TriState::Inited(v) => Some(v),
            mut other => {
                core::mem::swap(self, &mut other);
                None
            },
        }
    }
}

} // verus!
