use skyrust::bytes::{i16_be, i16_le, u16_le, u32_le};
use skyrust::protocol::{parse_packet, ControlPacket, PidParams, Setpoint, DSHOT_MAX, PACKET_LEN};

/// What the ground station sends.
fn pack(throttle: u16, pitch: i16, roll: i16, yaw_rate: i16, gains: [f32; 3]) -> Vec<u8> {
    let mut d = Vec::new();
    d.extend_from_slice(&throttle.to_le_bytes());
    d.extend_from_slice(&pitch.to_le_bytes());
    d.extend_from_slice(&roll.to_le_bytes());
    d.extend_from_slice(&yaw_rate.to_le_bytes());
    for gain in gains {
        d.extend_from_slice(&gain.to_le_bytes());
    }
    d
}

#[test]
fn sensor_words() {
    assert_eq!(i16_be(0, 0), 0);
    assert_eq!(i16_be(0x12, 0x34), 0x1234);
    assert_eq!(i16_be(0x7f, 0xff), i16::MAX);
    assert_eq!(i16_be(0x80, 0x00), i16::MIN);
    assert_eq!(i16_be(0xff, 0xff), -1);
    assert_eq!(i16_be(0x40, 0x00), 16384);
}

#[test]
fn network_words() {
    assert_eq!(u16_le(0xd0, 0x07), 2000);
    assert_eq!(u16_le(0xff, 0xff), u16::MAX);
    assert_eq!(i16_le(0x9c, 0xff), -100);
    assert_eq!(i16_le(0x00, 0x80), i16::MIN);
    assert_eq!(u32_le(0x78, 0x56, 0x34, 0x12), 0x1234_5678);
    assert_eq!(u32_le(0xff, 0xff, 0xff, 0xff), u32::MAX);
}

#[test]
fn words_agree_with_the_standard_library() {
    for h in 0..=255u8 {
        for l in 0..=255u8 {
            assert_eq!(i16_be(h, l), i16::from_be_bytes([h, l]));
            assert_eq!(u16_le(l, h), u16::from_le_bytes([l, h]));
            assert_eq!(i16_le(l, h), i16::from_le_bytes([l, h]));
        }
    }
    assert_eq!(u32_le(1, 2, 3, 4), u32::from_le_bytes([1, 2, 3, 4]));
}

#[test]
fn packet_is_read_as_packed() {
    let d = pack(1000, -250, 1, i16::MIN, [1.5, 0.02, -0.5]);
    assert_eq!(d.len(), PACKET_LEN);
    assert_eq!(
        parse_packet(&d),
        Some(ControlPacket {
            setpoint: Setpoint { throttle: 1000, pitch: -250, roll: 1, yaw_rate: i16::MIN },
            params: PidParams {
                kp: 1.5f32.to_bits(),
                ki: 0.02f32.to_bits(),
                kd: (-0.5f32).to_bits(),
            },
        })
    );
}

#[test]
fn throttle_is_limited() {
    for (sent, flown) in [(0u16, 0u16), (1999, 1999), (2000, 2000), (2001, 2000), (65535, 2000)] {
        let packet = parse_packet(&pack(sent, 0, 0, 0, [0.0; 3])).unwrap();
        assert_eq!(packet.setpoint.throttle, flown);
        assert!(packet.setpoint.throttle <= DSHOT_MAX);
    }
}

#[test]
fn only_twenty_bytes_are_a_packet() {
    for len in 0..=64usize {
        assert_eq!(parse_packet(&vec![0u8; len]).is_some(), len == 20);
    }
}

#[test]
fn packet_repacks_to_itself() {
    let d: Vec<u8> = vec![
        0xe8, 0x03, 0xff, 0x80, 0x01, 0x7f, 0x55, 0xaa, 1, 2, 3, 4, 5, 6, 7, 0x3f, 9, 10, 11, 0x40,
    ];
    let p = parse_packet(&d).unwrap();
    let gains = [
        f32::from_bits(p.params.kp),
        f32::from_bits(p.params.ki),
        f32::from_bits(p.params.kd),
    ];
    let s = p.setpoint;
    assert_eq!(pack(s.throttle, s.pitch, s.roll, s.yaw_rate, gains), d);
}
