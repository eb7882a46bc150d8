use vstd::prelude::*;

verus! {

/// The sensor's 7-bit I2C address.
pub const SHT20_ADDR: u8 = 0x40;

/// What the sensor is asked to measure.
#[derive(Debug, Clone, Copy, PartialEq, Eq, Structural)]
pub enum Measurement {
    Temperature,
    Humidity,
}

/// The "trigger measurement, hold master" command for a quantity.
pub open spec fn command_byte(m: Measurement) -> u8 {
    match m {
        Measurement::Temperature => 0xE3u8,
        Measurement::Humidity => 0xE5u8,
    }
}

impl Measurement {
    /// The command that starts this measurement.
    pub fn command(&self) -> (cmd: u8)
        ensures
            cmd == command_byte(*self),
            *self == Measurement::Temperature ==> cmd == 0xE3u8,
            *self == Measurement::Humidity ==> cmd == 0xE5u8,
    {
        match self {
            Measurement::Temperature => 0xE3,
            Measurement::Humidity => 0xE5,
        }
    }
}

/// The raw 14-bit reading of a measurement frame `[msb, lsb, crc]`: the
/// first two bytes big-endian, with the two status bits cleared. The
/// checksum byte is not read.
pub open spec fn raw_of_frame(msb: u8, lsb: u8) -> int {
    ((msb as int * 256 + lsb as int) / 4) * 4
}

/// Assembles the raw reading out of the three bytes the sensor returns.
pub fn raw_measurement(frame: &[u8; 3]) -> (raw: u16)
    ensures
        raw as int == raw_of_frame(frame@[0], frame@[1]),
{
    let msb = frame[0];
    let lsb = frame[1];
    let raw: u16 = ((msb as u16) << 8) | (lsb as u16);
    let masked: u16 = raw & 0xFFFC;
    assert(masked as int == ((msb as int * 256 + lsb as int) / 4) * 4) by (bit_vector)
        requires
            raw == ((msb as u16) << 8) | (lsb as u16),
            masked == raw & 0xFFFC,
    ;
    masked
}

/// Law: a raw reading never has its status bits set and never exceeds the
/// value the two data bytes spell.
pub proof fn lemma_raw_bounds(msb: u8, lsb: u8)
    ensures
        raw_of_frame(msb, lsb) % 4 == 0,
        raw_of_frame(msb, lsb) <= msb as int * 256 + lsb as int,
        msb as int * 256 + lsb as int - raw_of_frame(msb, lsb) == lsb as int % 4,
{
}

} // verus!
