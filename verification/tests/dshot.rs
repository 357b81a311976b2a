use skyrust::dshot::{
    arming_frames, delay_cycles, dshot_frame, dshot_send_step, Frames, Lines, PinAction,
    BURST_STEPS, GAP_NS, SEND_PERIOD_US, SEND_STEPS, SLOT_STEPS, T0H_NS, T1H_NS, T1L_NS,
};
use skyrust::flight::MotorValues;

fn checksum_holds(frame: u16) -> bool {
    (frame ^ (frame >> 4) ^ (frame >> 8) ^ (frame >> 12)) & 0x0f == 0
}

#[test]
fn frame_of_known_values() {
    assert_eq!(dshot_frame(0), 0);
    assert_eq!(dshot_frame(1046), 0x82c6);
    assert_eq!(dshot_frame(2000), 0xfa05);
    assert_eq!(dshot_frame(48), 0x0606);
    assert_eq!(dshot_frame(2047), 0xffee);
}

#[test]
fn frame_keeps_eleven_bits() {
    assert_eq!(dshot_frame(2048), dshot_frame(0));
    assert_eq!(dshot_frame(0xffff), dshot_frame(2047));
    for throttle in 0..=u16::MAX {
        let frame = dshot_frame(throttle);
        assert_eq!(frame >> 5, throttle % 2048);
        assert_eq!((frame >> 4) & 1, 0);
        assert!(checksum_holds(frame));
    }
}

#[test]
fn one_flipped_bit_breaks_the_checksum() {
    for throttle in [0u16, 48, 1046, 2000] {
        for i in 0..16 {
            assert!(!checksum_holds(dshot_frame(throttle) ^ (1 << i)));
        }
    }
}

#[test]
fn first_slot_of_a_transmission() {
    let frames = Frames { m1: 0x8000, m2: 0x7fff, m3: 0xffff, m4: 0 };
    let all = Lines { m1: true, m2: true, m3: true, m4: true };
    let expected = [
        PinAction::Raise,
        PinAction::Wait(1250),
        PinAction::Lower(Lines { m1: false, m2: true, m3: false, m4: true }),
        PinAction::Wait(1250),
        PinAction::Lower(all),
        PinAction::Wait(833),
    ];
    for (step, action) in expected.iter().enumerate() {
        assert_eq!(dshot_send_step(&frames, step), Some(*action));
    }
    assert_eq!(dshot_send_step(&frames, SLOT_STEPS), Some(PinAction::Raise));
    assert_eq!(
        dshot_send_step(&frames, SLOT_STEPS + 2),
        Some(PinAction::Lower(Lines { m1: true, m2: false, m3: false, m4: true }))
    );
}

#[test]
fn transmission_ends_with_the_pause() {
    let frames = Frames { m1: 1, m2: 2, m3: 3, m4: 4 };
    assert_eq!(dshot_send_step(&frames, BURST_STEPS), Some(PinAction::Wait(GAP_NS)));
    assert_eq!(dshot_send_step(&frames, SEND_STEPS), None);
    assert_eq!(dshot_send_step(&frames, usize::MAX), None);
}

/// Listens to one line of a transmission: the word that its pulses make up, the time that it
/// took, and the level at the end.
fn listen(frames: &Frames, motor: usize, idle: bool) -> (u16, u64, bool) {
    let mut level = idle;
    let mut word = 0u16;
    let mut total = 0u64;
    let mut high = 0u32;
    let mut step = 0;
    while let Some(action) = dshot_send_step(frames, step) {
        match action {
            PinAction::Raise => level = true,
            PinAction::Lower(l) => {
                if [l.m1, l.m2, l.m3, l.m4][motor - 1] {
                    level = false;
                }
            }
            PinAction::Wait(ns) => {
                total += ns as u64;
                if level {
                    high += ns;
                }
            }
        }
        step += 1;
        if step <= BURST_STEPS && step % SLOT_STEPS == 0 {
            assert!(high == T1H_NS || high == T0H_NS);
            word = word << 1 | (high == T1H_NS) as u16;
            high = 0;
        }
    }
    (word, total, level)
}

#[test]
fn receiver_gets_the_frames_back() {
    let frames = Frames { m1: 0x82c6, m2: 0xfa05, m3: 0, m4: 0xffff };
    for idle in [false, true] {
        assert_eq!(listen(&frames, 1, idle).0, 0x82c6);
        assert_eq!(listen(&frames, 2, idle).0, 0xfa05);
        assert_eq!(listen(&frames, 3, idle).0, 0);
        assert_eq!(listen(&frames, 4, idle).0, 0xffff);
    }
}

#[test]
fn transmission_time_and_final_level() {
    let frames = Frames { m1: 0x82c6, m2: 0xfa05, m3: 0, m4: 0xffff };
    for motor in 1..=4 {
        let (_, total, level) = listen(&frames, motor, true);
        assert_eq!(total, 16 * 3333 + 5000);
        assert_eq!(total, 16 * (T1H_NS + T1L_NS) as u64 + GAP_NS as u64);
        assert!(total < SEND_PERIOD_US * 1000);
        assert!(!level);
    }
}

#[test]
fn motor_values_reach_the_receiver() {
    let motors = MotorValues { m1: 100, m2: 2000, m3: 1234, m4: 0 };
    let frames = motors.frames();
    assert_eq!(frames, Frames { m1: 0x0c84, m2: 0xfa05, m3: 0x9a47, m4: 0 });
    for (motor, value) in [(1, 100u16), (2, 2000), (3, 1234), (4, 0)] {
        let word = listen(&frames, motor, false).0;
        assert!(checksum_holds(word));
        assert_eq!(word >> 5, value);
    }
}

#[test]
fn arming_sends_rest_until_the_end() {
    let rest = Frames { m1: 0, m2: 0, m3: 0, m4: 0 };
    assert_eq!(arming_frames(0, 4000), Some(rest));
    assert_eq!(arming_frames(3999, 4000), Some(rest));
    assert_eq!(arming_frames(4000, 4000), None);
    assert_eq!(arming_frames(4001, 4000), None);
    assert_eq!(MotorValues::stopped().frames(), rest);
}

#[test]
fn delay_cycles_rounds_down() {
    assert_eq!(delay_cycles(150_000_000, 1250), 187);
    assert_eq!(delay_cycles(150_000_000, 833), 124);
    assert_eq!(delay_cycles(150_000_000, 5000), 750);
    assert_eq!(delay_cycles(150_000_000, 0), 0);
    assert_eq!(delay_cycles(0, 5000), 0);
    assert_eq!(delay_cycles(u32::MAX, 1_000_000_000), u32::MAX);
}

#[test]
fn delay_cycles_keeps_the_low_bits() {
    assert_eq!(delay_cycles(4_000_000_000, 4_000_000_000), (16_000_000_000u64 % (1 << 32)) as u32);
}
