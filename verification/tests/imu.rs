use skyrust::imu::{
    decode_counts, Counts, ImuEffect, ImuReply, ImuRequest, ImuState, CALIB_SAMPLES,
};
use skyrust::telemetry::Notice;

fn block(x: i16, y: i16, z: i16) -> [u8; 6] {
    let (x, y, z) = (x.to_be_bytes(), y.to_be_bytes(), z.to_be_bytes());
    [x[0], x[1], y[0], y[1], z[0], z[1]]
}

#[test]
fn counts_are_big_endian() {
    assert_eq!(
        decode_counts(&[0x40, 0x00, 0xff, 0xff, 0x80, 0x00]),
        Counts { x: 16384, y: -1, z: i16::MIN }
    );
    assert_eq!(decode_counts(&block(1, -2, 300)), Counts { x: 1, y: -2, z: 300 });
}

#[test]
fn unknown_identity_is_logged_once_and_ends_the_work() {
    for who in [0u8, 0x67, 0x69, 0xff] {
        let mut state = ImuState::Probing;
        assert_eq!(state.advance(&ImuReply::Byte(who)), ImuEffect::Log(Notice::ImuNotFound));
        for _ in 0..10 {
            assert_eq!(state, ImuState::Absent);
            assert_eq!(state.request(), ImuRequest::Sleep { ms: 1000 });
            assert_eq!(state.advance(&ImuReply::Done), ImuEffect::Nothing);
        }
    }
}

#[test]
fn sensor_is_woken_before_it_is_read() {
    let mut state = ImuState::Probing;
    assert_eq!(state.request(), ImuRequest::ReadByte { address: 0x68, register: 0x75 });
    assert_eq!(state.advance(&ImuReply::Byte(0x68)), ImuEffect::Nothing);
    assert_eq!(state.request(), ImuRequest::Write { address: 0x68, register: 0x6b, value: 0 });
    assert_eq!(state.advance(&ImuReply::Done), ImuEffect::Nothing);
    assert_eq!(state.request(), ImuRequest::Sleep { ms: 100 });
    assert_eq!(state.advance(&ImuReply::Done), ImuEffect::Log(Notice::Calibrating));
    assert_eq!(state, ImuState::CalibAccel { done: 0 });
    assert_eq!(state.request(), ImuRequest::ReadBlock { address: 0x68, register: 0x3b });
    assert_eq!(state.advance(&ImuReply::Block(block(1, 2, 3))), ImuEffect::Nothing);
    assert_eq!(state.request(), ImuRequest::ReadBlock { address: 0x68, register: 0x43 });
    assert_eq!(
        state.advance(&ImuReply::Block(block(4, 5, 6))),
        ImuEffect::AddBias {
            accel: Counts { x: 1, y: 2, z: 3 },
            gyro: Counts { x: 4, y: 5, z: 6 },
        }
    );
    assert_eq!(state.request(), ImuRequest::Sleep { ms: 10 });
    assert_eq!(state.advance(&ImuReply::Done), ImuEffect::Nothing);
    assert_eq!(state, ImuState::CalibAccel { done: 1 });
}

/// A sensor that works: it answers each request, and a block with the number of the request.
fn answer(request: ImuRequest, n: i16) -> ImuReply {
    match request {
        ImuRequest::ReadByte { .. } => ImuReply::Byte(0x68),
        ImuRequest::ReadBlock { register, .. } => ImuReply::Block(block(n, register as i16, -n)),
        _ => ImuReply::Done,
    }
}

#[test]
fn calibration_takes_two_hundred_readings() {
    let mut state = ImuState::Probing;
    let mut readings = 0;
    let mut ended = None;
    for n in 0..1000i16 {
        match state.advance(&answer(state.request(), n)) {
            ImuEffect::AddBias { accel, gyro } => {
                assert!(ended.is_none());
                assert_eq!(n, 3 * readings + 4);
                assert_eq!(accel, Counts { x: n - 1, y: 0x3b, z: 1 - n });
                assert_eq!(gyro, Counts { x: n, y: 0x43, z: -n });
                readings += 1;
            }
            ImuEffect::Calibrated => {
                assert!(ended.is_none());
                assert_eq!(readings as usize, CALIB_SAMPLES);
                ended = Some(n);
            }
            ImuEffect::Sample { accel, gyro } => {
                assert!(ended.is_some());
                assert_eq!(n % 3, 2);
                assert_eq!(accel, Counts { x: n - 1, y: 0x3b, z: 1 - n });
                assert_eq!(gyro, Counts { x: n, y: 0x43, z: -n });
            }
            ImuEffect::Log(notice) => {
                assert_eq!(n, 2);
                assert_eq!(notice, Notice::Calibrating);
            }
            ImuEffect::Nothing => {}
        }
    }
    assert_eq!(readings, 200);
    assert_eq!(ended, Some(602));
}

#[test]
fn each_tick_reads_both_sensors() {
    let mut state = ImuState::Waiting;
    for n in 0..5i16 {
        assert_eq!(state.request(), ImuRequest::NextTick);
        assert_eq!(state.advance(&ImuReply::Done), ImuEffect::Nothing);
        assert_eq!(state.request(), ImuRequest::ReadBlock { address: 0x68, register: 0x3b });
        assert_eq!(state.advance(&ImuReply::Block(block(n, 0, 0))), ImuEffect::Nothing);
        assert_eq!(state.request(), ImuRequest::ReadBlock { address: 0x68, register: 0x43 });
        assert_eq!(
            state.advance(&ImuReply::Block(block(0, n, 0))),
            ImuEffect::Sample {
                accel: Counts { x: n, y: 0, z: 0 },
                gyro: Counts { x: 0, y: n, z: 0 },
            }
        );
        assert_eq!(state, ImuState::Waiting);
    }
}

#[test]
fn bring_up_logs_two_lines() {
    let mut state = ImuState::Probing;
    let mut lines = Vec::new();
    for n in 0..1000i16 {
        if let Some(notice) = state.advance(&answer(state.request(), n)).notice() {
            lines.push((n, notice));
        }
    }
    assert_eq!(lines, vec![(2, Notice::Calibrating), (602, Notice::Calibrated)]);
    assert_eq!(ImuEffect::Log(Notice::ImuNotFound).notice(), Some(Notice::ImuNotFound));
    assert_eq!(ImuEffect::Nothing.notice(), None);
}
