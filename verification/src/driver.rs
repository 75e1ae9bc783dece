//! The single-wire protocol: bounded waits, bit/byte decoding, and the
//! full read transaction.
//!
//! Each phase of the protocol has a specification-level counterpart that
//! maps the scripted line samples and the current sample position to the
//! phase's outcome and the position after it.  The executable functions
//! are proved to follow those maps exactly, so the result of a whole
//! transaction is a function of the scripted line alone.

use vstd::prelude::*;

use crate::frame::{parse_frame, spec_parse, Dht11Data, Dht11Error};
use crate::pin::{line_at, Level, PinMode, SimPin};

verus! {

/// Bound on every wait for a line edge, in polls (one poll per microsecond).
pub const MAX_WAIT_POLLS: u32 = 100;

/// Duration of the host request pulse that triggers the sensor.
pub const REQUEST_LOW_US: u64 = 20_000;

/// How long the host drives the line high before releasing it.
pub const RELEASE_HIGH_US: u64 = 15;

/// Fixed delay from the rising edge of a bit to its sample point; chosen
/// to fall between the high-phase of a 0 bit (about 26-28 us) and of a
/// 1 bit (about 70 us).
pub const BIT_SAMPLE_DELAY_US: u64 = 40;

/// Most samples one full transaction can consume: two acknowledgment
/// waits, 40 bits of two waits and one sample each, and the closing wait.
pub const READ_MAX_POLLS: usize = 8_340;

/// Most microseconds one full transaction can spend: the request pulse and
/// release, plus one microsecond per retried poll and the fixed bit delays.
pub const READ_MAX_US: u64 = 29_915;

/// Outcome of a bounded wait that polls from sample index `pos`: the
/// number of misses before the first poll that sees `target`, if any poll
/// among the first `retries` does.
pub open spec fn wait_hits(s: Seq<Level>, pos: int, target: Level, retries: nat) -> Option<nat>
    decreases retries,
{
    if retries == 0 {
        None
    } else if line_at(s, pos) == target {
        Some(0nat)
    } else {
        match wait_hits(s, pos + 1, target, (retries - 1) as nat) {
            None => None,
            Some(k) => Some(k + 1),
        }
    }
}

/// Shift a wait outcome by `d` earlier misses.
pub open spec fn shift_hit(o: Option<nat>, d: nat) -> Option<nat> {
    match o {
        None => None,
        Some(k) => Some(k + d),
    }
}

/// A bounded wait as a step: whether it hit, and the sample position after
/// it.  A hit after `k` misses consumes `k + 1` samples; a timeout consumes
/// one sample per allowed poll.
pub open spec fn wait_step(s: Seq<Level>, pos: int, target: Level, retries: nat) -> (Option<
    nat,
>, int) {
    match wait_hits(s, pos, target, retries) {
        Some(k) => (Some(k), pos + k + 1),
        None => (None, pos + retries),
    }
}

/// One bit read: wait for the line to go low, wait for it to go high, and
/// after the fixed delay sample it once; a high sample is a 1 bit.
pub open spec fn bit_step(s: Seq<Level>, pos: int, retries: nat) -> (Option<bool>, int) {
    let (hit_low, p1) = wait_step(s, pos, Level::Low, retries);
    if hit_low is None {
        (None, p1)
    } else {
        let (hit_high, p2) = wait_step(s, p1, Level::High, retries);
        if hit_high is None {
            (None, p2)
        } else {
            (Some(line_at(s, p2) == Level::High), p2 + 1)
        }
    }
}

/// `count` bit reads in sequence, earliest bit first.
pub open spec fn bits_step(s: Seq<Level>, pos: int, retries: nat, count: nat) -> (Option<
    Seq<bool>,
>, int)
    decreases count,
{
    if count == 0 {
        (Some(Seq::empty()), pos)
    } else {
        let (first, p1) = bit_step(s, pos, retries);
        match first {
            None => (None, p1),
            Some(b) => {
                let (rest, p2) = bits_step(s, p1, retries, (count - 1) as nat);
                match rest {
                    None => (None, p2),
                    Some(bs) => (Some(seq![b] + bs), p2),
                }
            },
        }
    }
}

/// The byte assembled from eight bits, most significant bit first.
pub open spec fn byte_of_bits(bs: Seq<bool>) -> u8
    recommends
        bs.len() == 8,
{
    ((if bs[0] {
        128int
    } else {
        0int
    }) + (if bs[1] {
        64int
    } else {
        0int
    }) + (if bs[2] {
        32int
    } else {
        0int
    }) + (if bs[3] {
        16int
    } else {
        0int
    }) + (if bs[4] {
        8int
    } else {
        0int
    }) + (if bs[5] {
        4int
    } else {
        0int
    }) + (if bs[6] {
        2int
    } else {
        0int
    }) + (if bs[7] {
        1int
    } else {
        0int
    })) as u8
}

/// One byte read: eight bit reads assembled most significant bit first.
pub open spec fn byte_step(s: Seq<Level>, pos: int, retries: nat) -> (Option<u8>, int) {
    let (bits, p) = bits_step(s, pos, retries, 8);
    match bits {
        None => (None, p),
        Some(bs) => (Some(byte_of_bits(bs)), p),
    }
}

/// `count` byte reads in sequence.
pub open spec fn bytes_step(s: Seq<Level>, pos: int, retries: nat, count: nat) -> (Option<
    Seq<u8>,
>, int)
    decreases count,
{
    if count == 0 {
        (Some(Seq::empty()), pos)
    } else {
        let (first, p1) = byte_step(s, pos, retries);
        match first {
            None => (None, p1),
            Some(b) => {
                let (rest, p2) = bytes_step(s, p1, retries, (count - 1) as nat);
                match rest {
                    None => (None, p2),
                    Some(bs) => (Some(seq![b] + bs), p2),
                }
            },
        }
    }
}

/// One whole transaction over the scripted line, starting at sample
/// position `pos`: the two acknowledgment waits, the five data bytes, the
/// closing wait, and checksum validation.  The host request phase drives
/// the line and consumes no samples.
pub open spec fn read_step(s: Seq<Level>, pos: int, retries: nat) -> (Result<
    Dht11Data,
    Dht11Error,
>, int) {
    let (ack_low, p1) = wait_step(s, pos, Level::Low, retries);
    if ack_low is None {
        (Err(Dht11Error::Timeout), p1)
    } else {
        let (ack_high, p2) = wait_step(s, p1, Level::High, retries);
        if ack_high is None {
            (Err(Dht11Error::Timeout), p2)
        } else {
            let (frame, p3) = bytes_step(s, p2, retries, 5);
            match frame {
                None => (Err(Dht11Error::Timeout), p3),
                Some(bytes) => {
                    let (end_low, p4) = wait_step(s, p3, Level::Low, retries);
                    if end_low is None {
                        (Err(Dht11Error::Timeout), p4)
                    } else {
                        (spec_parse(bytes), p4)
                    }
                },
            }
        }
    }
}

/// Poll the line until it shows `target`, delaying one microsecond after
/// each miss, for at most `max_retries` polls.
///
/// The very first poll counts as a retry attempt: a line already at
/// `target` succeeds after one sample and no delay.  Once `max_retries`
/// polls have all missed, the wait fails with `Timeout` having consumed
/// exactly `max_retries` samples.
pub fn wait_for_level(pin: &mut SimPin, target: Level, max_retries: u32) -> (r: Result<
    (),
    Dht11Error,
>)
    requires
        old(pin)@.mode == PinMode::Input,
        old(pin)@.pos + max_retries <= usize::MAX,
        old(pin)@.now_us + max_retries <= u64::MAX,
    ensures
        final(pin)@.mode == old(pin)@.mode,
        final(pin)@.driven == old(pin)@.driven,
        final(pin)@.samples == old(pin)@.samples,
        old(pin)@.pos <= final(pin)@.pos <= old(pin)@.pos + max_retries,
        old(pin)@.now_us <= final(pin)@.now_us <= old(pin)@.now_us + max_retries,
        ({
            let hits = wait_hits(old(pin)@.samples, old(pin)@.pos, target, max_retries as nat);
            match hits {
                Some(k) => r == Ok::<(), Dht11Error>(()) && final(pin)@.pos == old(pin)@.pos + k + 1
                    && final(pin)@.now_us == old(pin)@.now_us + k,
                None => r == Err::<(), Dht11Error>(Dht11Error::Timeout) && final(pin)@.pos == old(
                    pin,
                )@.pos + max_retries && final(pin)@.now_us == old(pin)@.now_us + max_retries,
            }
        }),
{
    let ghost s0 = pin@.samples;
    let ghost p0 = pin@.pos;
    let ghost t0 = pin@.now_us;
    let ghost d0 = pin@.driven;
    let mut i: u32 = 0;
    while i < max_retries
        invariant
            s0 == old(pin)@.samples,
            p0 == old(pin)@.pos,
            t0 == old(pin)@.now_us,
            d0 == old(pin)@.driven,
            old(pin)@.mode == PinMode::Input,
            i <= max_retries,
            pin@.mode == PinMode::Input,
            pin@.driven == d0,
            pin@.samples == s0,
            pin@.pos == p0 + i,
            pin@.now_us == t0 + i,
            p0 + max_retries <= usize::MAX,
            t0 + max_retries <= u64::MAX,
            wait_hits(s0, p0, target, max_retries as nat) == shift_hit(
                wait_hits(s0, p0 + i, target, (max_retries - i) as nat),
                i as nat,
            ),
        decreases max_retries - i,
    {
        let level = pin.read_level();
        if level == target {
            return Ok(());
        }
        pin.delay_us(1);
        i = i + 1;
    }
    Err(Dht11Error::Timeout)
}

/// Read one bit: wait for the low phase that starts the bit period, wait
/// for the high phase, and after the fixed delay sample the line once.  A
/// line still high at the sample point is a 1 bit; a line back low is a 0.
pub fn read_bit(pin: &mut SimPin) -> (r: Result<bool, Dht11Error>)
    requires
        old(pin)@.mode == PinMode::Input,
        old(pin)@.pos + 201 <= usize::MAX,
        old(pin)@.now_us + 240 <= u64::MAX,
    ensures
        final(pin)@.mode == old(pin)@.mode,
        final(pin)@.driven == old(pin)@.driven,
        final(pin)@.samples == old(pin)@.samples,
        old(pin)@.pos <= final(pin)@.pos <= old(pin)@.pos + 201,
        old(pin)@.now_us <= final(pin)@.now_us <= old(pin)@.now_us + 240,
        ({
            let (bit, p) = bit_step(old(pin)@.samples, old(pin)@.pos, MAX_WAIT_POLLS as nat);
            match bit {
                Some(b) => r == Ok::<bool, Dht11Error>(b) && final(pin)@.pos == p,
                None => r == Err::<bool, Dht11Error>(Dht11Error::Timeout) && final(pin)@.pos == p,
            }
        }),
{
    match wait_for_level(pin, Level::Low, MAX_WAIT_POLLS) {
        Err(e) => {
            return Err(e);
        },
        Ok(()) => {},
    }
    match wait_for_level(pin, Level::High, MAX_WAIT_POLLS) {
        Err(e) => {
            return Err(e);
        },
        Ok(()) => {},
    }
    pin.delay_us(BIT_SAMPLE_DELAY_US);
    let level = pin.read_level();
    Ok(level == Level::High)
}

/// Assemble a byte from eight bits, most significant bit first.
fn byte_from_bits(bits: &Vec<bool>) -> (v: u8)
    requires
        bits@.len() == 8,
    ensures
        v == byte_of_bits(bits@),
{
    (if bits[0] {
        128
    } else {
        0
    }) + (if bits[1] {
        64
    } else {
        0
    }) + (if bits[2] {
        32
    } else {
        0
    }) + (if bits[3] {
        16
    } else {
        0
    }) + (if bits[4] {
        8
    } else {
        0
    }) + (if bits[5] {
        4
    } else {
        0
    }) + (if bits[6] {
        2
    } else {
        0
    }) + (if bits[7] {
        1
    } else {
        0
    })
}

/// Read one byte: eight bit reads into one accumulator, most significant
/// bit first.  A timeout inside any bit read aborts the byte.
pub fn read_byte(pin: &mut SimPin) -> (r: Result<u8, Dht11Error>)
    requires
        old(pin)@.mode == PinMode::Input,
        old(pin)@.pos + 1_608 <= usize::MAX,
        old(pin)@.now_us + 1_920 <= u64::MAX,
    ensures
        final(pin)@.mode == old(pin)@.mode,
        final(pin)@.driven == old(pin)@.driven,
        final(pin)@.samples == old(pin)@.samples,
        old(pin)@.pos <= final(pin)@.pos <= old(pin)@.pos + 1_608,
        old(pin)@.now_us <= final(pin)@.now_us <= old(pin)@.now_us + 1_920,
        ({
            let (byte, p) = byte_step(old(pin)@.samples, old(pin)@.pos, MAX_WAIT_POLLS as nat);
            match byte {
                Some(v) => r == Ok::<u8, Dht11Error>(v) && final(pin)@.pos == p,
                None => r == Err::<u8, Dht11Error>(Dht11Error::Timeout) && final(pin)@.pos == p,
            }
        }),
{
    let ghost s0 = pin@.samples;
    let ghost p0 = pin@.pos;
    let ghost t0 = pin@.now_us;
    let ghost d0 = pin@.driven;
    let mut bits: Vec<bool> = Vec::new();
    let mut i: usize = 0;
    while i < 8
        invariant
            s0 == old(pin)@.samples,
            p0 == old(pin)@.pos,
            t0 == old(pin)@.now_us,
            d0 == old(pin)@.driven,
            old(pin)@.mode == PinMode::Input,
            p0 + 1_608 <= usize::MAX,
            t0 + 1_920 <= u64::MAX,
            i <= 8,
            bits@.len() == i,
            pin@.mode == PinMode::Input,
            pin@.driven == d0,
            pin@.samples == s0,
            p0 <= pin@.pos <= p0 + i * 201,
            t0 <= pin@.now_us <= t0 + i * 240,
            ({
                let (rest, p) = bits_step(s0, pin@.pos, MAX_WAIT_POLLS as nat, (8 - i) as nat);
                match rest {
                    Some(bs) => bits_step(s0, p0, MAX_WAIT_POLLS as nat, 8) == (
                        Some(bits@ + bs),
                        p,
                    ),
                    None => bits_step(s0, p0, MAX_WAIT_POLLS as nat, 8) == (None::<Seq<bool>>, p),
                }
            }),
        decreases 8 - i,
    {
        let ghost old_bits = bits@;
        match read_bit(pin) {
            Ok(b) => {
                bits.push(b);
                i = i + 1;
                proof {
                    assert forall|bs: Seq<bool>| (old_bits + (seq![b] + bs)) =~= (bits@ + bs) by {}
                }
            },
            Err(e) => {
                return Err(e);
            },
        }
    }
    proof {
        assert(bits@ + Seq::<bool>::empty() =~= bits@);
    }
    let v = byte_from_bits(&bits);
    Ok(v)
}

/// Read the five data bytes of one frame in order.  A timeout inside any
/// byte read aborts the frame.
fn read_frame(pin: &mut SimPin) -> (r: Result<Vec<u8>, Dht11Error>)
    requires
        old(pin)@.mode == PinMode::Input,
        old(pin)@.pos + 8_040 <= usize::MAX,
        old(pin)@.now_us + 9_600 <= u64::MAX,
    ensures
        final(pin)@.mode == old(pin)@.mode,
        final(pin)@.driven == old(pin)@.driven,
        final(pin)@.samples == old(pin)@.samples,
        old(pin)@.pos <= final(pin)@.pos <= old(pin)@.pos + 8_040,
        old(pin)@.now_us <= final(pin)@.now_us <= old(pin)@.now_us + 9_600,
        r is Ok ==> r->Ok_0@.len() == 5,
        ({
            let (frame, p) = bytes_step(old(pin)@.samples, old(pin)@.pos, MAX_WAIT_POLLS as nat, 5);
            match frame {
                Some(bs) => r is Ok && r->Ok_0@ == bs && final(pin)@.pos == p,
                None => r == Err::<Vec<u8>, Dht11Error>(Dht11Error::Timeout) && final(pin)@.pos
                    == p,
            }
        }),
{
    let ghost s0 = pin@.samples;
    let ghost p0 = pin@.pos;
    let ghost t0 = pin@.now_us;
    let ghost d0 = pin@.driven;
    let mut data: Vec<u8> = Vec::new();
    let mut i: usize = 0;
    while i < 5
        invariant
            s0 == old(pin)@.samples,
            p0 == old(pin)@.pos,
            t0 == old(pin)@.now_us,
            d0 == old(pin)@.driven,
            old(pin)@.mode == PinMode::Input,
            p0 + 8_040 <= usize::MAX,
            t0 + 9_600 <= u64::MAX,
            i <= 5,
            data@.len() == i,
            pin@.mode == PinMode::Input,
            pin@.driven == d0,
            pin@.samples == s0,
            p0 <= pin@.pos <= p0 + i * 1_608,
            t0 <= pin@.now_us <= t0 + i * 1_920,
            ({
                let (rest, p) = bytes_step(s0, pin@.pos, MAX_WAIT_POLLS as nat, (5 - i) as nat);
                match rest {
                    Some(bs) => bytes_step(s0, p0, MAX_WAIT_POLLS as nat, 5) == (
                        Some(data@ + bs),
                        p,
                    ),
                    None => bytes_step(s0, p0, MAX_WAIT_POLLS as nat, 5) == (None::<Seq<u8>>, p),
                }
            }),
        decreases 5 - i,
    {
        let ghost old_data = data@;
        match read_byte(pin) {
            Ok(b) => {
                data.push(b);
                i = i + 1;
                proof {
                    assert forall|bs: Seq<u8>| (old_data + (seq![b] + bs)) =~= (data@ + bs) by {}
                }
            },
            Err(e) => {
                return Err(e);
            },
        }
    }
    proof {
        assert(data@ + Seq::<u8>::empty() =~= data@);
    }
    Ok(data)
}

/// The single-wire sensor driver, sole owner of its line.
pub struct DHT11 {
    /// The owned sensor line.
    pub pin: SimPin,
}

impl DHT11 {
    /// Take ownership of the line the sensor is wired to.
    pub fn new(pin: SimPin) -> (d: DHT11)
        ensures
            d.pin == pin,
    {
        DHT11 { pin }
    }

    /// Return the line to its driven idle-high state.
    fn restore_idle(&mut self)
        ensures
            final(self).pin@.mode == PinMode::Output,
            final(self).pin@.driven == Level::High,
            final(self).pin@.samples == old(self).pin@.samples,
            final(self).pin@.pos == old(self).pin@.pos,
            final(self).pin@.now_us == old(self).pin@.now_us,
    {
        self.pin.configure_output();
        self.pin.set_level(Level::High);
    }

    /// One full read transaction: host request pulse, line release, sensor
    /// acknowledgment, 40-bit capture, closing edge, checksum validation.
    ///
    /// The outcome and the number of samples consumed are exactly those of
    /// [`read_step`] on the scripted line.  Whatever the outcome, the line
    /// is restored to its driven idle-high state before returning, so the
    /// next transaction starts from a known state.
    pub fn read(&mut self) -> (r: Result<Dht11Data, Dht11Error>)
        requires
            old(self).pin@.pos + READ_MAX_POLLS <= usize::MAX,
            old(self).pin@.now_us + READ_MAX_US <= u64::MAX,
        ensures
            final(self).pin@.mode == PinMode::Output,
            final(self).pin@.driven == Level::High,
            final(self).pin@.samples == old(self).pin@.samples,
            ({
                let (res, p) = read_step(
                    old(self).pin@.samples,
                    old(self).pin@.pos,
                    MAX_WAIT_POLLS as nat,
                );
                r == res && final(self).pin@.pos == p
            }),
            old(self).pin@.pos <= final(self).pin@.pos <= old(self).pin@.pos + READ_MAX_POLLS,
            old(self).pin@.now_us <= final(self).pin@.now_us <= old(self).pin@.now_us
                + READ_MAX_US,
    {
        // Host request: drive the line low for the trigger period.
        self.pin.configure_output();
        self.pin.set_level(Level::High);
        self.pin.set_level(Level::Low);
        self.pin.delay_us(REQUEST_LOW_US);
        // Release: drive high briefly, switch to input to hand the
        // line to the sensor.
        self.pin.set_level(Level::High);
        self.pin.delay_us(RELEASE_HIGH_US);
        self.pin.configure_input();
        // Sensor acknowledgment: low, high.
        match wait_for_level(&mut self.pin, Level::Low, MAX_WAIT_POLLS) {
            Err(_) => {
                self.restore_idle();
                return Err(Dht11Error::Timeout);
            },
            Ok(()) => {},
        }
        match wait_for_level(&mut self.pin, Level::High, MAX_WAIT_POLLS) {
            Err(_) => {
                self.restore_idle();
                return Err(Dht11Error::Timeout);
            },
            Ok(()) => {},
        }
        // Data phase: the five frame bytes.
        let data = match read_frame(&mut self.pin) {
            Err(_) => {
                self.restore_idle();
                return Err(Dht11Error::Timeout);
            },
            Ok(data) => data,
        };
        // Frame end: the line returns low.
        match wait_for_level(&mut self.pin, Level::Low, MAX_WAIT_POLLS) {
            Err(_) => {
                self.restore_idle();
                return Err(Dht11Error::Timeout);
            },
            Ok(()) => {},
        }
        let frame: [u8; 5] = [data[0], data[1], data[2], data[3], data[4]];
        proof {
            assert(frame@ =~= data@);
        }
        let r = parse_frame(&frame);
        self.restore_idle();
        r
    }
}

} // verus!
