use dht11::driver::DHT11;
use dht11::encode::encode_frame_trace;
use dht11::frame::{Dht11Data, Dht11Error};
use dht11::pin::{Level, PinMode, SimPin};
use dht11::task::run_sensor_task;

#[test]
fn successive_reads_start_at_least_two_seconds_apart() {
    let mut samples = encode_frame_trace(&[0x32, 0x00, 0x15, 0x00, 0x47]);
    samples.extend(encode_frame_trace(&[0x28, 0x05, 0x16, 0x09, 0x4c]));
    samples.extend(encode_frame_trace(&[0x30, 0x01, 0x14, 0x02, 0x47]));
    let mut dht = DHT11::new(SimPin::new(samples));
    let log = run_sensor_task(&mut dht, 3);
    assert_eq!(log.len(), 3);
    for i in 0..log.len() - 1 {
        assert!(log[i + 1].started_us >= log[i].started_us + 2_000_000);
    }
}

#[test]
fn spacing_holds_whatever_each_outcome_was() {
    // First a valid frame, a corrupt frame after it, and a dead line for
    // the rest: one success, one checksum mismatch, one timeout.
    let mut samples = encode_frame_trace(&[0x32, 0x00, 0x15, 0x00, 0x47]);
    samples.extend(encode_frame_trace(&[0x32, 0x00, 0x15, 0x00, 0x48]));
    let mut dht = DHT11::new(SimPin::new(samples));
    let log = run_sensor_task(&mut dht, 3);
    assert_eq!(log.len(), 3);
    assert_eq!(
        log[0].outcome,
        Ok(Dht11Data {
            humidity_integral: 0x32,
            humidity_decimal: 0x00,
            temperature_integral: 0x15,
            temperature_decimal: 0x00,
        })
    );
    assert_eq!(log[1].outcome, Err(Dht11Error::ChecksumMismatch));
    assert_eq!(log[2].outcome, Err(Dht11Error::Timeout));
    for i in 0..log.len() - 1 {
        assert!(log[i + 1].started_us >= log[i].started_us + 2_000_000);
    }
    assert_eq!(dht.pin.mode(), PinMode::Output);
    assert_eq!(dht.pin.driven_level(), Level::High);
}

#[test]
fn task_records_every_cycle_of_a_failing_sensor() {
    let mut dht = DHT11::new(SimPin::new(Vec::new()));
    let log = run_sensor_task(&mut dht, 4);
    assert_eq!(log.len(), 4);
    for rec in &log {
        assert_eq!(rec.outcome, Err(Dht11Error::Timeout));
    }
    for i in 0..log.len() - 1 {
        assert!(log[i + 1].started_us >= log[i].started_us + 2_000_000);
    }
}
