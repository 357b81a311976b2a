//! The motor mixer: with which sign each PID term goes into each motor.
use vstd::prelude::*;

verus! {

/// Whether a PID term is added or taken off.
#[derive(Clone, Copy, Debug, PartialEq, Eq, Structural)]
pub enum Sign {
    Plus,
    Minus,
}

impl Sign {
    /// The term with this sign.
    pub open spec fn of(self, term: int) -> int {
        match self {
            Sign::Plus => term,
            Sign::Minus => -term,
        }
    }
}

/// The signs with which the PID terms go into one motor.
#[derive(Clone, Copy, Debug, PartialEq, Eq, Structural)]
pub struct MixSigns {
    pub pitch: Sign,
    pub roll: Sign,
    pub yaw: Sign,
}

/// The signs of all four motors.
#[derive(Clone, Copy, Debug, PartialEq, Eq, Structural)]
pub struct Mixer {
    /// Front left.
    pub m1: MixSigns,
    /// Front right.
    pub m2: MixSigns,
    /// Rear right.
    pub m3: MixSigns,
    /// Rear left.
    pub m4: MixSigns,
}

/// The signs of the airframe: pitch lifts the front pair, roll the pair of motors two and three,
/// yaw the diagonal of motors one and three; each lowers the other pair.
pub open spec fn spec_mixer() -> Mixer {
    Mixer {
        m1: MixSigns { pitch: Sign::Plus, roll: Sign::Minus, yaw: Sign::Plus },
        m2: MixSigns { pitch: Sign::Plus, roll: Sign::Plus, yaw: Sign::Minus },
        m3: MixSigns { pitch: Sign::Minus, roll: Sign::Plus, yaw: Sign::Plus },
        m4: MixSigns { pitch: Sign::Minus, roll: Sign::Minus, yaw: Sign::Minus },
    }
}

/// The signs of the airframe.
pub fn mixer() -> (m: Mixer)
    ensures
        m == spec_mixer(),
{
    Mixer {
        m1: MixSigns { pitch: Sign::Plus, roll: Sign::Minus, yaw: Sign::Plus },
        m2: MixSigns { pitch: Sign::Plus, roll: Sign::Plus, yaw: Sign::Minus },
        m3: MixSigns { pitch: Sign::Minus, roll: Sign::Plus, yaw: Sign::Plus },
        m4: MixSigns { pitch: Sign::Minus, roll: Sign::Minus, yaw: Sign::Minus },
    }
}

impl MixSigns {
    /// What one motor is given, in exact arithmetic.
    pub open spec fn mix(self, throttle: int, pitch: int, roll: int, yaw: int) -> int {
        throttle + self.pitch.of(pitch) + self.roll.of(roll) + self.yaw.of(yaw)
    }
}

/// A plus leaves a term as it is, and a minus turns it round.
pub proof fn law_signs(term: int)
    ensures
        Sign::Plus.of(term) == term,
        Sign::Minus.of(term) + term == 0,
{
}

/// Each correction goes with a plus into one pair of motors and with a minus into the other: that
/// of pitch lifts the front pair, that of roll motors two and three, that of yaw motors one and
/// three.
pub proof fn law_mixer_pairs()
    ensures
        spec_mixer().m1.pitch == spec_mixer().m2.pitch,
        spec_mixer().m3.pitch == spec_mixer().m4.pitch,
        spec_mixer().m1.pitch is Plus && spec_mixer().m4.pitch is Minus,
        spec_mixer().m2.roll == spec_mixer().m3.roll,
        spec_mixer().m1.roll == spec_mixer().m4.roll,
        spec_mixer().m2.roll is Plus && spec_mixer().m1.roll is Minus,
        spec_mixer().m1.yaw == spec_mixer().m3.yaw,
        spec_mixer().m2.yaw == spec_mixer().m4.yaw,
        spec_mixer().m1.yaw is Plus && spec_mixer().m2.yaw is Minus,
{
}

/// In exact arithmetic, and before any limit is applied, the corrections never change what the
/// four motors are given together.
pub proof fn law_mixer_keeps_total(throttle: int, pitch: int, roll: int, yaw: int)
    ensures
        spec_mixer().m1.mix(throttle, pitch, roll, yaw) + spec_mixer().m2.mix(
            throttle,
            pitch,
            roll,
            yaw,
        ) + spec_mixer().m3.mix(throttle, pitch, roll, yaw) + spec_mixer().m4.mix(
            throttle,
            pitch,
            roll,
            yaw,
        ) == 4 * throttle,
{
}

/// In exact arithmetic, the difference between the two motor pairs of an axis depends on the
/// correction of that axis alone.
pub proof fn law_mixer_separates_axes(throttle: int, pitch: int, roll: int, yaw: int)
    ensures
        ({
            let m1 = spec_mixer().m1.mix(throttle, pitch, roll, yaw);
            let m2 = spec_mixer().m2.mix(throttle, pitch, roll, yaw);
            let m3 = spec_mixer().m3.mix(throttle, pitch, roll, yaw);
            let m4 = spec_mixer().m4.mix(throttle, pitch, roll, yaw);
            &&& (m1 + m2) - (m3 + m4) == 4 * pitch
            &&& (m2 + m3) - (m1 + m4) == 4 * roll
            &&& (m1 + m3) - (m2 + m4) == 4 * yaw
        }),
{
}

} // verus!
