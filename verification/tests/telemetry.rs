use skyrust::telemetry::{
    address_record, log_record, packet_len, packet_ok_record, size_error_record, Notice,
};

fn sent(record: [u8; 64]) -> Vec<u8> {
    record[..packet_len(&record)].to_vec()
}

#[test]
fn record_pads_with_zeros() {
    let record = log_record(b"READY\r\n");
    assert_eq!(&record[..7], b"READY\r\n");
    assert!(record[7..].iter().all(|&b| b == 0));
    assert_eq!(log_record(b""), [0u8; 64]);
}

#[test]
fn record_cuts_off_at_63() {
    let text: Vec<u8> = (1..=100u8).collect();
    for len in [62usize, 63, 64, 65, 100] {
        let record = log_record(&text[..len]);
        assert_eq!(record[63], 0);
        assert_eq!(sent(record), text[..len.min(63)].to_vec());
    }
}

#[test]
fn packet_ends_at_the_first_zero() {
    assert_eq!(packet_len(&[0u8; 64]), 0);
    assert_eq!(packet_len(&[7u8; 64]), 64);
    let mut msg = [7u8; 64];
    msg[63] = 0;
    assert_eq!(packet_len(&msg), 63);
    msg[5] = 0;
    assert_eq!(packet_len(&msg), 5);
    msg[0] = 0;
    assert_eq!(packet_len(&msg), 0);
    assert_eq!(sent(log_record(b"ab\0cd")), b"ab".to_vec());
}

#[test]
fn notices_go_out_whole() {
    for (notice, text) in [
        (Notice::Booting, "BOOTING...\r\n"),
        (Notice::Wifi, "WIFI...\r\n"),
        (Notice::Arming, "ARMING...\r\n"),
        (Notice::Ready, "READY\r\n"),
        (Notice::ImuNotFound, "MPU-6050 NOT FOUND\r\n"),
        (Notice::Calibrating, "CALIBRATING IMU. DO NOT MOVE.\r\n"),
        (Notice::Calibrated, "IMU CALIBRATION COMPLETE\r\n"),
        (Notice::Failsafe, "FAILSAFE: NO UDP\r\n"),
    ] {
        assert_eq!(notice.text(), text);
        assert_eq!(sent(log_record(notice.text().as_bytes())), text.as_bytes().to_vec());
    }
}

#[test]
fn size_errors_name_the_size() {
    for len in [0usize, 9, 10, 19, 21, 64, 1000, usize::MAX] {
        let text = format!("UDP ERR: SIZE={}\r\n", len);
        assert_eq!(sent(size_error_record(len)), text.into_bytes());
    }
}

#[test]
fn packets_are_reported_with_throttle_and_gain() {
    assert_eq!(sent(packet_ok_record(1000, "1.20")), b"UDP OK: THR=1000 KP=1.20\r\n".to_vec());
    assert_eq!(sent(packet_ok_record(0, "NaN")), b"UDP OK: THR=0 KP=NaN\r\n".to_vec());
    assert_eq!(sent(packet_ok_record(65535, "")), b"UDP OK: THR=65535 KP=\r\n".to_vec());
}

/// The formatted line, without its end where 64 bytes do not hold that too, and then what a record
/// carries of it.
fn formatted(throttle: u16, kp: f32) -> Vec<u8> {
    let whole = format!("UDP OK: THR={} KP={:.2}\r\n", throttle, kp).into_bytes();
    let line = if whole.len() <= 64 { whole } else { whole[..whole.len() - 2].to_vec() };
    line[..line.len().min(63)].to_vec()
}

#[test]
fn report_agrees_with_the_formatted_line() {
    for throttle in [0u16, 47, 999, 1000, 2000] {
        for kp in [
            0.0,
            -0.0,
            1.2,
            -3.456,
            1e10,
            1e37,
            f32::MAX,
            f32::MIN,
            f32::NAN,
            f32::INFINITY,
            f32::NEG_INFINITY,
            f32::MIN_POSITIVE,
        ] {
            let text = format!("{:.2}", kp);
            assert!(text.len() <= 43);
            assert_eq!(sent(packet_ok_record(throttle, &text)), formatted(throttle, kp));
        }
    }
}

#[test]
fn report_of_the_longest_gain_loses_its_end() {
    let text = format!("{:.2}", f32::MIN);
    assert_eq!(text.len(), 43);
    let expected = format!("UDP OK: THR=2000 KP={}", text);
    assert_eq!(sent(packet_ok_record(2000, &text)), expected.into_bytes());
}

#[test]
fn report_of_a_long_gain_stops_where_it_no_longer_fits() {
    let kp44 = "1".repeat(44);
    let line = format!("UDP OK: THR=2000 KP={}", kp44);
    assert_eq!(sent(packet_ok_record(2000, &kp44)), line.as_bytes()[..63].to_vec());
    let kp45 = "1".repeat(45);
    assert_eq!(sent(packet_ok_record(2000, &kp45)), b"UDP OK: THR=2000 KP=".to_vec());
    let kp41 = "1".repeat(41);
    let whole = format!("UDP OK: THR=2000 KP={}\r\n", kp41);
    assert_eq!(sent(packet_ok_record(2000, &kp41)), whole.into_bytes());
    let kp42 = "1".repeat(42);
    let cut = format!("UDP OK: THR=2000 KP={}\r", kp42);
    assert_eq!(sent(packet_ok_record(2000, &kp42)), cut.into_bytes());
}

#[test]
fn address_is_reported() {
    assert_eq!(
        sent(address_record([192, 168, 4, 1], 24)),
        b"IP: 192.168.4.1/24\r\n".to_vec()
    );
    assert_eq!(sent(address_record([0, 0, 0, 0], 0)), b"IP: 0.0.0.0/0\r\n".to_vec());
    assert_eq!(
        sent(address_record([255, 255, 255, 255], 32)),
        b"IP: 255.255.255.255/32\r\n".to_vec()
    );
}

#[test]
fn address_agrees_with_the_network_stack() {
    for (octets, prefix) in [([172, 20, 10, 2], 28u8), ([10, 0, 0, 200], 8), ([1, 2, 3, 4], 32)] {
        let cidr = embassy_net::Ipv4Cidr::new(embassy_net::Ipv4Address::from(octets), prefix);
        let text = format!("IP: {}\r\n", cidr);
        assert_eq!(sent(address_record(octets, prefix)), text.into_bytes());
    }
}
