use sht20_node::sht20::{raw_measurement, Measurement, SHT20_ADDR};

#[test]
fn commands_and_address() {
    assert_eq!(Measurement::Temperature.command(), 0xE3);
    assert_eq!(Measurement::Humidity.command(), 0xE5);
    assert_eq!(SHT20_ADDR, 0x40);
}

#[test]
fn raw_reading_clears_status_bits() {
    assert_eq!(raw_measurement(&[0x66, 0x7F, 0x12]), 0x667C);
    assert_eq!(raw_measurement(&[0xFF, 0xFF, 0x00]), 0xFFFC);
    assert_eq!(raw_measurement(&[0x00, 0x03, 0xAA]), 0);
    assert_eq!(raw_measurement(&[0x12, 0x34, 0x56]), 0x1234);
}

#[test]
fn raw_reading_ignores_checksum() {
    assert_eq!(raw_measurement(&[0x61, 0x02, 0x00]), raw_measurement(&[0x61, 0x02, 0xFF]));
}
