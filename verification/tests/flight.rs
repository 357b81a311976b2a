use skyrust::flight::{
    motor_command, report_record, Axes, AxisState, Flight, LinkReport, MotorSums, MotorValues, Tick,
};
use skyrust::mixer::{mixer, MixSigns, Sign};
use skyrust::protocol::{PidParams, Setpoint};
use skyrust::telemetry::{packet_len, Notice};

fn datagram(throttle: u16, kp: f32) -> Vec<u8> {
    let mut d = throttle.to_le_bytes().to_vec();
    d.extend_from_slice(&100i16.to_le_bytes());
    d.extend_from_slice(&(-200i16).to_le_bytes());
    d.extend_from_slice(&300i16.to_le_bytes());
    d.extend_from_slice(&kp.to_le_bytes());
    d.extend_from_slice(&0.25f32.to_le_bytes());
    d.extend_from_slice(&0.125f32.to_le_bytes());
    d
}

fn axes(integral: u32, previous: u32) -> Axes {
    let axis = AxisState { integral, previous };
    Axes { pitch: axis, roll: axis, yaw: axis }
}

const SUMS: MotorSums = MotorSums { m1: 1200, m2: 1100, m3: 1000, m4: 900 };

/// A flight that turns its motors after a packet at 1000 ms.
fn airborne(throttle: u16) -> Flight {
    let mut flight = Flight::new();
    flight.on_datagram(&datagram(throttle, 1.5), 1000);
    assert_eq!(flight.tick(1010), Tick::Fly { throttle });
    flight.drive(axes(7, 9), SUMS);
    flight
}

#[test]
fn flight_starts_at_rest() {
    let flight = Flight::new();
    assert_eq!(flight.motors, MotorValues::stopped());
    assert_eq!(flight.motors, MotorValues { m1: 0, m2: 0, m3: 0, m4: 0 });
    assert_eq!(flight.setpoint, Setpoint { throttle: 0, pitch: 0, roll: 0, yaw_rate: 0 });
    assert_eq!(f32::from_bits(flight.params.kp), 1.2);
    assert_eq!(f32::from_bits(flight.params.ki), 0.02);
    assert_eq!(f32::from_bits(flight.params.kd), 0.05);
    assert_eq!(flight.axes, axes(0f32.to_bits(), 0f32.to_bits()));
    assert_eq!((flight.last_pkt, flight.rx_count, flight.last_log), (0, 0, 0));
}

#[test]
fn packet_replaces_setpoint_and_gains() {
    let mut flight = Flight::new();
    assert_eq!(flight.on_datagram(&datagram(1500, 2.5), 1234), LinkReport::Quiet);
    assert_eq!(
        flight.setpoint,
        Setpoint { throttle: 1500, pitch: 100, roll: -200, yaw_rate: 300 }
    );
    assert_eq!(
        flight.params,
        PidParams { kp: 2.5f32.to_bits(), ki: 0.25f32.to_bits(), kd: 0.125f32.to_bits() }
    );
    assert_eq!((flight.last_pkt, flight.rx_count), (1234, 1));
    assert_eq!(flight.motors, MotorValues::stopped());
}

#[test]
fn wrong_size_changes_nothing() {
    let mut flight = airborne(1000);
    let before = flight;
    for len in [0usize, 19, 21, 64] {
        assert_eq!(flight.on_datagram(&vec![0xffu8; len], 5000), LinkReport::WrongSize { len });
        assert_eq!(flight, before);
    }
}

#[test]
fn every_25th_packet_is_reported() {
    let mut flight = Flight::new();
    let mut reports = 0;
    for n in 1..=110 {
        match flight.on_datagram(&datagram(3000, 1.5), n as u64) {
            LinkReport::Quiet => assert!(n % 25 != 0),
            LinkReport::Packet { throttle, kp } => {
                assert_eq!(n % 25, 0);
                assert_eq!(throttle, 2000);
                assert_eq!(f32::from_bits(kp), 1.5);
                reports += 1;
            }
            LinkReport::WrongSize { .. } => panic!("a packet was refused"),
        }
        assert_eq!(flight.on_datagram(&[1, 2, 3], 0), LinkReport::WrongSize { len: 3 });
    }
    assert_eq!(reports, 110 / 25);
    assert_eq!(flight.rx_count, 110);
}

#[test]
fn fresh_packet_is_flown() {
    let mut flight = Flight::new();
    flight.on_datagram(&datagram(48, 1.5), 5000);
    assert_eq!(flight.tick(5000), Tick::Fly { throttle: 48 });
    assert_eq!(flight.tick(6000), Tick::Fly { throttle: 48 });
    flight.on_datagram(&datagram(2500, 1.5), 6000);
    assert_eq!(flight.tick(6500), Tick::Fly { throttle: 2000 });
}

#[test]
fn failsafe_cuts_the_motors() {
    let mut flight = airborne(1500);
    assert_eq!(flight.motors, MotorValues { m1: 1200, m2: 1100, m3: 1000, m4: 900 });
    assert_eq!(flight.tick(2000), Tick::Fly { throttle: 1500 });
    flight.on_datagram(&[0; 21], 1990);
    assert_eq!(flight.tick(2001), Tick::Cut { notice: Some(Notice::Failsafe) });
    assert_eq!(flight.motors, MotorValues::stopped());
    assert_eq!(flight.axes, axes(0, 9));
    assert_eq!(flight.setpoint.throttle, 1500);
    assert_eq!(flight.last_log, 2001);
}

#[test]
fn failsafe_ends_with_the_next_packet() {
    let mut flight = airborne(1500);
    flight.tick(9000);
    assert_eq!(flight.motors, MotorValues::stopped());
    flight.on_datagram(&datagram(700, 1.0), 9005);
    assert_eq!(flight.tick(9010), Tick::Fly { throttle: 700 });
}

#[test]
fn failsafe_reports_are_spaced() {
    let mut flight = airborne(1500);
    assert_eq!(flight.tick(3000), Tick::Cut { notice: Some(Notice::Failsafe) });
    assert_eq!(flight.tick(3010), Tick::Cut { notice: None });
    assert_eq!(flight.tick(4000), Tick::Cut { notice: None });
    assert_eq!(flight.tick(4001), Tick::Cut { notice: Some(Notice::Failsafe) });
    assert_eq!(flight.last_log, 4001);
}

#[test]
fn no_packet_at_all_is_not_reported_early() {
    let mut flight = Flight::new();
    assert_eq!(flight.tick(1000), Tick::Cut { notice: None });
    assert_eq!(flight.tick(1001), Tick::Cut { notice: Some(Notice::Failsafe) });
}

#[test]
fn clock_behind_the_packet_counts_as_fresh() {
    let mut flight = airborne(1500);
    assert_eq!(flight.tick(10), Tick::Fly { throttle: 1500 });
}

#[test]
fn low_throttle_stops_the_motors() {
    for throttle in [0u16, 1, 47] {
        let mut flight = airborne(1500);
        flight.on_datagram(&datagram(throttle, 1.5), 1020);
        assert_eq!(flight.motors.m1, 1200);
        assert_eq!(flight.tick(1030), Tick::Cut { notice: None });
        assert_eq!(flight.motors, MotorValues::stopped());
        assert_eq!(flight.axes, axes(0, 9));
        assert_eq!(flight.last_log, 0);
    }
}

#[test]
fn flown_tick_leaves_the_state_to_drive() {
    let mut flight = airborne(1500);
    let before = flight;
    assert_eq!(flight.tick(1500), Tick::Fly { throttle: 1500 });
    assert_eq!(flight, before);
    flight.drive(axes(3, 4), MotorSums { m1: -1, m2: 99, m3: 2001, m4: i32::MAX });
    assert_eq!(flight.axes, axes(3, 4));
    assert_eq!(flight.motors, MotorValues { m1: 100, m2: 100, m3: 2000, m4: 2000 });
    assert_eq!(flight.setpoint, before.setpoint);
    assert_eq!(flight.last_pkt, before.last_pkt);
}

#[test]
fn motor_commands_are_limited() {
    for (sum, value) in [
        (i32::MIN, 100u16),
        (-1, 100),
        (0, 100),
        (99, 100),
        (100, 100),
        (101, 101),
        (1999, 1999),
        (2000, 2000),
        (2001, 2000),
        (65636, 2000),
        (i32::MAX, 2000),
    ] {
        assert_eq!(motor_command(sum), value);
    }
}

/// The limits applied to the number that the mixer adds up, before it is made an integer.
fn limited(sum: f32) -> u16 {
    let value = sum.clamp(0.0, 2000.0) as u16;
    if value < 100 {
        100
    } else {
        value
    }
}

#[test]
fn limits_on_the_integer_are_the_limits_on_the_number() {
    for sum in [
        -1e30f32, -1.0, -0.5, -0.0, 0.0, 0.5, 99.9, 100.0, 100.9, 1500.75, 1999.99, 2000.0, 2000.5,
        2001.0, 1e30, f32::INFINITY, f32::NEG_INFINITY, f32::NAN,
    ] {
        assert_eq!(motor_command(sum as i32), limited(sum));
    }
}

#[test]
fn motors_are_at_rest_or_within_limits() {
    let mut flight = Flight::new();
    for n in 0..400u64 {
        let throttle = (n * 37 % 2300) as u16;
        if n % 3 == 0 {
            flight.on_datagram(&datagram(throttle, 1.0), n * 400);
        }
        if let Tick::Fly { throttle } = flight.tick(n * 400 + 10) {
            let t = throttle as i32;
            flight.drive(
                axes(1, 2),
                MotorSums { m1: t - 5000, m2: t - 100, m3: t + 100, m4: t + 5000 },
            );
        }
        let m = flight.motors;
        for value in [m.m1, m.m2, m.m3, m.m4] {
            assert!(value == 0 || (100..=2000).contains(&value));
        }
    }
}

fn signed(sign: Sign, term: i32) -> i32 {
    match sign {
        Sign::Plus => term,
        Sign::Minus => -term,
    }
}

fn mix(signs: MixSigns, throttle: i32, pitch: i32, roll: i32, yaw: i32) -> i32 {
    throttle + signed(signs.pitch, pitch) + signed(signs.roll, roll) + signed(signs.yaw, yaw)
}

#[test]
fn mixer_of_known_terms() {
    let m = mixer();
    assert_eq!(mix(m.m1, 1000, 1, 10, 100), 1000 + 1 - 10 + 100);
    assert_eq!(mix(m.m2, 1000, 1, 10, 100), 1000 + 1 + 10 - 100);
    assert_eq!(mix(m.m3, 1000, 1, 10, 100), 1000 - 1 + 10 + 100);
    assert_eq!(mix(m.m4, 1000, 1, 10, 100), 1000 - 1 - 10 - 100);
}

#[test]
fn mixer_keeps_total_and_separates_axes() {
    let m = mixer();
    let (t, p, r, y) = (900, 17, -40, 5);
    let (a, b, c, d) =
        (mix(m.m1, t, p, r, y), mix(m.m2, t, p, r, y), mix(m.m3, t, p, r, y), mix(m.m4, t, p, r, y));
    assert_eq!(a + b + c + d, 4 * t);
    assert_eq!(a + b - c - d, 4 * p);
    assert_eq!(b + c - a - d, 4 * r);
    assert_eq!(a + c - b - d, 4 * y);
}

#[test]
fn failed_receive_changes_nothing() {
    let mut flight = airborne(1000);
    let before = flight;
    assert_eq!(flight.on_receive(None, 5000), LinkReport::Quiet);
    assert_eq!(flight, before);
    assert_eq!(flight.on_receive(Some(&[1, 2]), 5000), LinkReport::WrongSize { len: 2 });
    assert_eq!(flight, before);
    assert_eq!(flight.on_receive(Some(&datagram(700, 1.0)), 5000), LinkReport::Quiet);
    assert_eq!((flight.setpoint.throttle, flight.last_pkt), (700, 5000));
}

#[test]
fn failsafe_counts_from_the_latest_packet() {
    let mut flight = Flight::new();
    assert_eq!(flight.last_pkt, 0);
    for (now, len, expected) in [
        (10u64, 19usize, 0u64),
        (20, 20, 20),
        (30, 21, 20),
        (40, 20, 40),
        (35, 20, 35),
        (50, 0, 35),
    ] {
        flight.on_receive(Some(&vec![0xa5u8; len]), now);
        flight.on_receive(None, now + 1);
        flight.tick(now + 2);
        assert_eq!(flight.last_pkt, expected);
    }
}

#[test]
fn reports_become_their_records() {
    let sent = |report: LinkReport, kp: &str| {
        report_record(report, kp).map(|msg| msg[..packet_len(&msg)].to_vec())
    };
    assert_eq!(sent(LinkReport::Quiet, "1.20"), None);
    assert_eq!(
        sent(LinkReport::WrongSize { len: 7 }, "1.20"),
        Some(b"UDP ERR: SIZE=7\r\n".to_vec())
    );
    assert_eq!(
        sent(LinkReport::Packet { throttle: 900, kp: 1.2f32.to_bits() }, "1.20"),
        Some(b"UDP OK: THR=900 KP=1.20\r\n".to_vec())
    );
}
