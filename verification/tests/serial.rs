use driver_init::SerialPortAddress;
use driver_init::SerialPortInterruptEvent;
use driver_init::TriState;

#[test]
fn tristate_take_hands_out_the_object_once() {
    let mut cell: TriState<u32> = TriState::Inited(7);
    assert_eq!(cell.take(), Some(7));
    assert_eq!(cell.take(), None);
    assert!(matches!(cell, TriState::Taken));
}

#[test]
fn tristate_take_leaves_uninited_alone() {
    let mut cell: TriState<u32> = TriState::Uninited;
    assert_eq!(cell.take(), None);
    assert!(matches!(cell, TriState::Uninited));
}

#[test]
fn serial_port_address_parses_canonical_names() {
    assert_eq!(SerialPortAddress::try_from("COM1"), Ok(SerialPortAddress::COM1));
    assert_eq!(SerialPortAddress::try_from("COM2"), Ok(SerialPortAddress::COM2));
    assert_eq!(SerialPortAddress::try_from("COM3"), Ok(SerialPortAddress::COM3));
    assert_eq!(SerialPortAddress::try_from("COM4"), Ok(SerialPortAddress::COM4));
}

#[test]
fn serial_port_address_parsing_ignores_ascii_case() {
    assert_eq!(SerialPortAddress::try_from("com1"), Ok(SerialPortAddress::COM1));
    assert_eq!(SerialPortAddress::try_from("CoM2"), Ok(SerialPortAddress::COM2));
    assert_eq!(SerialPortAddress::try_from("cOm4"), Ok(SerialPortAddress::COM4));
}

#[test]
fn serial_port_address_rejects_other_names() {
    assert_eq!(SerialPortAddress::try_from("COM5"), Err(()));
    assert_eq!(SerialPortAddress::try_from("COM"), Err(()));
    assert_eq!(SerialPortAddress::try_from("COM11"), Err(()));
    assert_eq!(SerialPortAddress::try_from(""), Err(()));
    assert_eq!(SerialPortAddress::try_from("ttyS0"), Err(()));
}

#[test]
fn interrupt_events_occupy_distinct_bits() {
    assert_eq!(SerialPortInterruptEvent::DataReceived.bitmask(), 1 << 0);
    assert_eq!(SerialPortInterruptEvent::TransmitterEmpty.bitmask(), 1 << 1);
    assert_eq!(SerialPortInterruptEvent::ErrorOrBreak.bitmask(), 1 << 2);
    assert_eq!(SerialPortInterruptEvent::StatusChange.bitmask(), 1 << 3);
}
