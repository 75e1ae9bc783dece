//! The 5-byte sensor frame: checksum validation and the decoded reading.

use vstd::prelude::*;

verus! {

/// What can go wrong during one read transaction.
#[derive(Clone, Copy, PartialEq, Eq, Structural, Debug)]
pub enum Dht11Error {
    /// A complete frame was captured but its checksum does not match.
    ChecksumMismatch,
    /// Reserved for a sensor that is absent or unpowered.  The protocol
    /// cannot tell that condition apart from a mid-transfer glitch, so the
    /// driver never raises it; both show up as `Timeout`.
    NoResponse,
    /// An expected edge did not occur within its bounded wait.
    Timeout,
}

/// One decoded reading: humidity and temperature, each as an integral part
/// and a decimal (tenths) part.
#[derive(Clone, Copy, PartialEq, Eq, Structural, Debug)]
pub struct Dht11Data {
    /// Integral humidity, in %RH.
    pub humidity_integral: u8,
    /// Tenths of a percent of relative humidity.
    pub humidity_decimal: u8,
    /// Integral temperature, in degrees Celsius.
    pub temperature_integral: u8,
    /// Tenths of a degree Celsius.
    pub temperature_decimal: u8,
}

/// The 8-bit wrapping sum of the four payload bytes.
pub open spec fn checksum(b0: u8, b1: u8, b2: u8, b3: u8) -> u8 {
    ((b0 + b1 + b2 + b3) % 256) as u8
}

/// Validation of a captured 5-byte frame: the reading carries the payload
/// bytes exactly when the 5th byte is the wrapping sum of the first four.
pub open spec fn spec_parse(frame: Seq<u8>) -> Result<Dht11Data, Dht11Error>
    recommends
        frame.len() == 5,
{
    if frame[4] == checksum(frame[0], frame[1], frame[2], frame[3]) {
        Ok(
            Dht11Data {
                humidity_integral: frame[0],
                humidity_decimal: frame[1],
                temperature_integral: frame[2],
                temperature_decimal: frame[3],
            },
        )
    } else {
        Err(Dht11Error::ChecksumMismatch)
    }
}

/// The 8-bit wrapping sum of the four payload bytes.
pub fn wrapping_sum(b0: u8, b1: u8, b2: u8, b3: u8) -> (s: u8)
    ensures
        s == checksum(b0, b1, b2, b3),
{
    let total: u32 = b0 as u32 + b1 as u32 + b2 as u32 + b3 as u32;
    (total % 256) as u8
}

/// Validate a captured frame and build the reading from its payload.
///
/// Returns `Ok` exactly when the 5th byte equals the wrapping sum of the
/// first four; otherwise the frame is rejected as a checksum mismatch and
/// no reading is produced.
pub fn parse_frame(frame: &[u8; 5]) -> (r: Result<Dht11Data, Dht11Error>)
    ensures
        r == spec_parse(frame@),
{
    let sum = wrapping_sum(frame[0], frame[1], frame[2], frame[3]);
    if frame[4] == sum {
        Ok(
            Dht11Data {
                humidity_integral: frame[0],
                humidity_decimal: frame[1],
                temperature_integral: frame[2],
                temperature_decimal: frame[3],
            },
        )
    } else {
        Err(Dht11Error::ChecksumMismatch)
    }
}

impl Dht11Data {
    /// Relative humidity in tenths of a percent: ten times the integral
    /// part plus the decimal part.
    pub fn humidity_tenths(&self) -> (t: u16)
        ensures
            t == 10 * self.humidity_integral + self.humidity_decimal,
    {
        10 * (self.humidity_integral as u16) + self.humidity_decimal as u16
    }

    /// Temperature in tenths of a degree Celsius: ten times the integral
    /// part plus the decimal part.
    pub fn temperature_tenths(&self) -> (t: u16)
        ensures
            t == 10 * self.temperature_integral + self.temperature_decimal,
    {
        10 * (self.temperature_integral as u16) + self.temperature_decimal as u16
    }
}

/// Checksum validity: a frame made of any payload followed by its wrapping
/// sum parses to a reading holding that payload, field by field.
pub proof fn lemma_checksum_accepts(b0: u8, b1: u8, b2: u8, b3: u8)
    ensures
        spec_parse(seq![b0, b1, b2, b3, checksum(b0, b1, b2, b3)]) == Ok::<
            Dht11Data,
            Dht11Error,
        >(
            Dht11Data {
                humidity_integral: b0,
                humidity_decimal: b1,
                temperature_integral: b2,
                temperature_decimal: b3,
            },
        ),
{
}

/// Checksum rejection: a frame whose 5th byte is not the wrapping sum of
/// the first four never parses to a reading.
pub proof fn lemma_checksum_rejects(frame: Seq<u8>)
    requires
        frame.len() == 5,
        frame[4] != checksum(frame[0], frame[1], frame[2], frame[3]),
    ensures
        spec_parse(frame) == Err::<Dht11Data, Dht11Error>(Dht11Error::ChecksumMismatch),
{
}

} // verus!
