use dht11::driver::{read_bit, read_byte, wait_for_level, DHT11, MAX_WAIT_POLLS};
use dht11::encode::encode_frame_trace;
use dht11::frame::{Dht11Data, Dht11Error};
use dht11::pin::{Level, PinMode, SimPin};

fn input_pin(samples: Vec<Level>) -> SimPin {
    let mut pin = SimPin::new(samples);
    pin.configure_input();
    pin
}

#[test]
fn wait_times_out_after_exactly_max_retries_polls() {
    // The scripted line never goes low: past the end of an empty script
    // the pulled-up line always reads high.
    let mut pin = input_pin(Vec::new());
    let r = wait_for_level(&mut pin, Level::Low, 37);
    assert_eq!(r, Err(Dht11Error::Timeout));
    assert_eq!(pin.samples_taken(), 37);
    assert_eq!(pin.elapsed_us(), 37);
}

#[test]
fn wait_never_sees_target_in_a_long_wrong_script() {
    let mut pin = input_pin(vec![Level::High; 500]);
    let r = wait_for_level(&mut pin, Level::Low, MAX_WAIT_POLLS);
    assert_eq!(r, Err(Dht11Error::Timeout));
    assert_eq!(pin.samples_taken(), MAX_WAIT_POLLS as usize);
}

#[test]
fn wait_succeeds_immediately_without_a_delay_cycle() {
    let mut pin = input_pin(vec![Level::Low]);
    let r = wait_for_level(&mut pin, Level::Low, 10);
    assert_eq!(r, Ok(()));
    assert_eq!(pin.samples_taken(), 1);
    assert_eq!(pin.elapsed_us(), 0);
}

#[test]
fn wait_counts_one_microsecond_per_miss() {
    let mut pin = input_pin(vec![Level::High, Level::High, Level::Low]);
    let r = wait_for_level(&mut pin, Level::Low, 10);
    assert_eq!(r, Ok(()));
    assert_eq!(pin.samples_taken(), 3);
    assert_eq!(pin.elapsed_us(), 2);
}

#[test]
fn bit_high_at_sample_point_is_one() {
    let mut pin = input_pin(vec![Level::Low, Level::High, Level::High]);
    assert_eq!(read_bit(&mut pin), Ok(true));
    let mut pin = input_pin(vec![Level::Low, Level::High, Level::Low]);
    assert_eq!(read_bit(&mut pin), Ok(false));
}

#[test]
fn byte_assembles_most_significant_bit_first() {
    // One high bit first, seven low bits after: 0b1000_0000.
    let mut samples = vec![Level::Low, Level::High, Level::High];
    for _ in 0..7 {
        samples.extend([Level::Low, Level::High, Level::Low]);
    }
    let mut pin = input_pin(samples);
    assert_eq!(read_byte(&mut pin), Ok(0x80));
}

#[test]
fn byte_aborts_on_a_timeout_inside_a_bit() {
    // Two good bits, and a line stuck high afterwards: the low phase of
    // the third bit never comes.
    let mut samples = Vec::new();
    samples.extend([Level::Low, Level::High, Level::High]);
    samples.extend([Level::Low, Level::High, Level::Low]);
    let mut pin = input_pin(samples);
    assert_eq!(read_byte(&mut pin), Err(Dht11Error::Timeout));
}

#[test]
fn read_decodes_scenario_frame() {
    let trace = encode_frame_trace(&[0x32, 0x00, 0x15, 0x00, 0x47]);
    assert_eq!(trace.len(), 123);
    let mut dht = DHT11::new(SimPin::new(trace));
    let r = dht.read();
    assert_eq!(
        r,
        Ok(Dht11Data {
            humidity_integral: 0x32,
            humidity_decimal: 0x00,
            temperature_integral: 0x15,
            temperature_decimal: 0x00,
        })
    );
    let data = r.unwrap();
    assert_eq!(data.humidity_tenths() as f32 / 10.0, 50.0);
    assert_eq!(data.temperature_tenths() as f32 / 10.0, 21.0);
    assert_eq!(dht.pin.samples_taken(), 123);
}

#[test]
fn read_rejects_scenario_frame_with_bad_checksum() {
    let trace = encode_frame_trace(&[0x32, 0x00, 0x15, 0x00, 0x48]);
    let mut dht = DHT11::new(SimPin::new(trace));
    assert_eq!(dht.read(), Err(Dht11Error::ChecksumMismatch));
}

#[test]
fn read_times_out_when_the_sensor_never_answers() {
    // An empty script: the line stays at the pulled-up idle level, so the
    // acknowledgment low never comes.
    let mut dht = DHT11::new(SimPin::new(Vec::new()));
    assert_eq!(dht.read(), Err(Dht11Error::Timeout));
    assert_eq!(dht.pin.samples_taken(), MAX_WAIT_POLLS as usize);
}

#[test]
fn line_is_restored_to_idle_after_success() {
    let trace = encode_frame_trace(&[0x32, 0x00, 0x15, 0x00, 0x47]);
    let mut dht = DHT11::new(SimPin::new(trace));
    let _ = dht.read();
    assert_eq!(dht.pin.mode(), PinMode::Output);
    assert_eq!(dht.pin.driven_level(), Level::High);
}

#[test]
fn line_is_restored_to_idle_after_checksum_mismatch() {
    let trace = encode_frame_trace(&[0x01, 0x02, 0x03, 0x04, 0x00]);
    let mut dht = DHT11::new(SimPin::new(trace));
    assert_eq!(dht.read(), Err(Dht11Error::ChecksumMismatch));
    assert_eq!(dht.pin.mode(), PinMode::Output);
    assert_eq!(dht.pin.driven_level(), Level::High);
}

#[test]
fn line_is_restored_to_idle_after_timeout() {
    let mut dht = DHT11::new(SimPin::new(Vec::new()));
    assert_eq!(dht.read(), Err(Dht11Error::Timeout));
    assert_eq!(dht.pin.mode(), PinMode::Output);
    assert_eq!(dht.pin.driven_level(), Level::High);
}

#[test]
fn every_sampled_payload_round_trips_through_the_line() {
    for b0 in (0u16..=255).step_by(13) {
        let b0 = b0 as u8;
        let b1 = b0.wrapping_mul(3);
        let b2 = b0 ^ 0x0f;
        let b3 = b0.wrapping_add(101);
        let sum = b0.wrapping_add(b1).wrapping_add(b2).wrapping_add(b3);
        let trace = encode_frame_trace(&[b0, b1, b2, b3, sum]);
        let mut dht = DHT11::new(SimPin::new(trace));
        let r = dht.read();
        assert_eq!(
            r,
            Ok(Dht11Data {
                humidity_integral: b0,
                humidity_decimal: b1,
                temperature_integral: b2,
                temperature_decimal: b3,
            })
        );
    }
}
