use dht11::frame::{parse_frame, wrapping_sum, Dht11Data, Dht11Error};

#[test]
fn accepts_frame_with_matching_checksum() {
    let r = parse_frame(&[0x32, 0x00, 0x15, 0x00, 0x47]);
    assert_eq!(
        r,
        Ok(Dht11Data {
            humidity_integral: 0x32,
            humidity_decimal: 0x00,
            temperature_integral: 0x15,
            temperature_decimal: 0x00,
        })
    );
}

#[test]
fn rejects_frame_with_checksum_off_by_one() {
    let r = parse_frame(&[0x32, 0x00, 0x15, 0x00, 0x48]);
    assert_eq!(r, Err(Dht11Error::ChecksumMismatch));
}

#[test]
fn accepts_every_payload_with_its_wrapping_sum() {
    for b0 in (0u16..=255).step_by(17) {
        for b1 in (0u16..=255).step_by(31) {
            let b0 = b0 as u8;
            let b1 = b1 as u8;
            let b2 = b0 ^ 0x5a;
            let b3 = b1.wrapping_add(7);
            let sum = b0.wrapping_add(b1).wrapping_add(b2).wrapping_add(b3);
            let r = parse_frame(&[b0, b1, b2, b3, sum]);
            assert_eq!(
                r,
                Ok(Dht11Data {
                    humidity_integral: b0,
                    humidity_decimal: b1,
                    temperature_integral: b2,
                    temperature_decimal: b3,
                })
            );
        }
    }
}

#[test]
fn rejects_every_other_fifth_byte() {
    let (b0, b1, b2, b3) = (0x2eu8, 0x07, 0x19, 0x03);
    let sum = b0.wrapping_add(b1).wrapping_add(b2).wrapping_add(b3);
    for fifth in 0u16..=255 {
        let fifth = fifth as u8;
        let r = parse_frame(&[b0, b1, b2, b3, fifth]);
        if fifth == sum {
            assert!(r.is_ok());
        } else {
            assert_eq!(r, Err(Dht11Error::ChecksumMismatch));
        }
    }
}

#[test]
fn checksum_wraps_at_eight_bits() {
    assert_eq!(wrapping_sum(0xff, 0xff, 0xff, 0xff), 0xfc);
    let r = parse_frame(&[0xff, 0xff, 0xff, 0xff, 0xfc]);
    assert!(r.is_ok());
}

#[test]
fn tenths_follow_the_conversion_formula() {
    for integral in 0u8..=99 {
        for decimal in 0u8..=9 {
            let data = Dht11Data {
                humidity_integral: integral,
                humidity_decimal: decimal,
                temperature_integral: decimal,
                temperature_decimal: integral,
            };
            assert_eq!(data.humidity_tenths(), 10 * integral as u16 + decimal as u16);
            assert_eq!(data.temperature_tenths(), 10 * decimal as u16 + integral as u16);
        }
    }
}

#[test]
fn scenario_values_convert_exactly() {
    let data = Dht11Data {
        humidity_integral: 0x32,
        humidity_decimal: 0x00,
        temperature_integral: 0x15,
        temperature_decimal: 0x00,
    };
    assert_eq!(data.humidity_tenths(), 500);
    assert_eq!(data.temperature_tenths(), 210);
    assert_eq!(data.humidity_tenths() as f32 / 10.0, 50.0);
    assert_eq!(data.temperature_tenths() as f32 / 10.0, 21.0);
}
