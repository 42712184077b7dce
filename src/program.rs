use vstd::prelude::*;

verus! {

/// One 16-bit instruction of an engine program.
#[derive(Debug, Clone, Copy, PartialEq, Eq, Structural)]
pub enum Command {
    /// Repeat `step_time` times: wait one prescale tick, then add `increment`
    /// to the channel's PWM value.
    RampWait { prescale: bool, step_time: u8, increment: i8 },
    /// Set the channel's PWM value directly.
    SetPwm { value: u8 },
    /// Jump back to the first instruction.
    GoToStart,
    /// Loop counter jump.
    Branch { loop_times: u8, go_to_step: u8 },
    /// Halt the engine, optionally raising an interrupt and resetting the channel.
    End { interrupt: bool, reset: bool },
    /// Cross-engine synchronisation.
    Trigger,
}

/// Rounds the non-negative rational `n / d` (with `d > 0`) to the nearest
/// integer, halves rounding up.
pub open spec fn round_div(n: int, d: int) -> int {
    (2 * n + d) / (2 * d)
}

/// A duration of `num / den` milliseconds needs the slow prescaler (15.6 ms
/// per cycle) exactly when it is longer than 30.87 ms, the longest span that
/// 63 cycles of the fast prescaler (0.49 ms per cycle) can cover.
pub open spec fn slow_prescale(num: int, den: int) -> bool {
    100 * num > 3087 * den
}

/// Number of prescaler cycles nearest to `num / den` milliseconds.
pub open spec fn cycle_count(num: int, den: int) -> int {
    if slow_prescale(num, den) {
        round_div(10 * num, 156 * den)
    } else {
        round_div(100 * num, 49 * den)
    }
}

/// A non-negative count held in a byte, saturating at 255.
pub open spec fn saturate_u8(x: int) -> u8 {
    if x > 255 {
        255
    } else {
        x as u8
    }
}

/// The absolute value of an increment (128 for `i8::MIN`).
pub open spec fn magnitude(i: i8) -> int {
    if i < 0 {
        -i
    } else {
        i as int
    }
}

/// The instruction that waits `micros` microseconds without changing brightness.
pub open spec fn wait_spec(micros: u32) -> Command {
    Command::RampWait {
        prescale: slow_prescale(micros as int, 1000),
        step_time: saturate_u8(cycle_count(micros as int, 1000)),
        increment: 0,
    }
}

/// The instruction that ramps by `increment` over `millis` milliseconds,
/// one unit per step, with at least one cycle per step.
pub open spec fn ramp_spec(millis: u16, increment: i8) -> Command {
    let m = magnitude(increment);
    let c = saturate_u8(cycle_count(millis as int, m));
    Command::RampWait {
        prescale: slow_prescale(millis as int, m),
        step_time: if c == 0 { 1 } else { c },
        increment,
    }
}

/// Prescaler selection and cycle count for a span of `num / den` milliseconds.
fn timing(num: u64, den: u64) -> (r: (bool, u8))
    requires
        0 < den <= 1000,
        num <= 0xffff_ffff,
    ensures
        r.0 == slow_prescale(num as int, den as int),
        r.1 == saturate_u8(cycle_count(num as int, den as int)),
{
    let slow = 100 * num > 3087 * den;
    let cycles: u64 = if slow {
        (20 * num + 156 * den) / (312 * den)
    } else {
        (200 * num + 49 * den) / (98 * den)
    };
    if cycles > 255 {
        (slow, 255)
    } else {
        (slow, cycles as u8)
    }
}

impl Command {
    /// Whether the instruction has a defined 16-bit encoding.
    pub open spec fn spec_is_encodable(self) -> bool {
        !(self is Branch) && !(self is Trigger)
    }

    /// The 16-bit word of an encodable instruction. Fields wider than their
    /// slot are truncated: `step_time` to 6 bits, the increment's magnitude to 7.
    pub open spec fn code(self) -> int {
        match self {
            Command::RampWait { prescale, step_time, increment } => (if prescale {
                0x4000int
            } else {
                0
            }) + (step_time as int % 64) * 0x100 + (if increment < 0 {
                0x80int
            } else {
                0
            }) + magnitude(increment) % 128,
            Command::SetPwm { value } => 0x4000 + value,
            Command::GoToStart => 0,
            Command::End { interrupt, reset } => 0xC000 + (if interrupt {
                0x2000int
            } else {
                0
            }) + (if reset {
                0x1000int
            } else {
                0
            }),
            _ => 0,
        }
    }

    /// A wait of `micros` microseconds (pure delay, increment 0).
    ///
    /// The fast prescaler is used up to and including 30.87 ms, the slow one
    /// above; the cycle count is the duration divided by the cycle length,
    /// rounded to nearest and saturated at 255.
    pub fn wait_us(micros: u32) -> (r: Command)
        ensures
            r == wait_spec(micros),
            r->prescale <==> micros > 30870,
    {
        let (prescale, cycles) = timing(micros as u64, 1000);
        Command::RampWait { prescale, step_time: cycles, increment: 0 }
    }

    /// A ramp by `increment` over `millis` milliseconds: each of the
    /// `|increment|` steps lasts `millis / |increment|` milliseconds, rounded
    /// to the nearest whole number of prescaler cycles, and never less than
    /// one cycle. As for waits, a step of up to and including 30.87 ms uses
    /// the fast prescaler and a longer one the slow prescaler.
    pub fn ramp_ms(millis: u16, increment: i8) -> (r: Command)
        requires
            increment != 0,
        ensures
            r == ramp_spec(millis, increment),
            r->prescale <==> 100 * millis > 3087 * magnitude(increment),
            r->step_time >= 1,
            r->increment == increment,
    {
        let mag: u64 = if increment < 0 {
            (0 - increment as i16) as u64
        } else {
            increment as u64
        };
        let (prescale, cycles) = timing(millis as u64, mag);
        let step_time = if cycles == 0 {
            1
        } else {
            cycles
        };
        Command::RampWait { prescale, step_time, increment }
    }

    /// Whether the instruction has a defined 16-bit encoding
    /// (`Branch` and `Trigger` have none).
    pub fn is_encodable(&self) -> (r: bool)
        ensures
            r == self.spec_is_encodable(),
    {
        match self {
            Command::Branch { .. } => false,
            Command::Trigger => false,
            _ => true,
        }
    }

    /// The instruction's 16-bit word.
    pub fn to_code(&self) -> (r: u16)
        requires
            self.spec_is_encodable(),
        ensures
            r == self.code(),
    {
        match self {
            Command::RampWait { prescale, step_time, increment } => {
                let p: u16 = if *prescale {
                    1
                } else {
                    0
                };
                let st: u8 = *step_time;
                let neg: u16 = if *increment < 0 {
                    1
                } else {
                    0
                };
                let mag: u8 = if *increment < 0 {
                    (0 - *increment as i16) as u8
                } else {
                    *increment as u8
                };
                let r = (p << 14) | ((st & 63) as u16) << 8 | (neg << 7) | ((mag & 127) as u16);
                assert(st & 63 == st % 64) by (bit_vector);
                assert(mag & 127 == mag % 128) by (bit_vector);
                assert(r == p * 0x4000 + (st & 63) as u16 * 0x100 + neg * 0x80 + (mag & 127) as u16)
                    by (bit_vector)
                    requires
                        p <= 1,
                        neg <= 1,
                        r == (p << 14) | ((st & 63) as u16) << 8 | (neg << 7) | ((mag & 127) as u16),
                ;
                r
            },
            Command::SetPwm { value } => {
                let v: u8 = *value;
                let r = 0b01000000_00000000u16 | (v as u16);
                assert(r == 0x4000 + v) by (bit_vector)
                    requires
                        r == 0b01000000_00000000u16 | (v as u16),
                ;
                r
            },
            Command::End { interrupt, reset } => {
                let i: u16 = if *interrupt {
                    1
                } else {
                    0
                };
                let s: u16 = if *reset {
                    1
                } else {
                    0
                };
                let r = 0b11000000_00000000u16 | (i << 13) | (s << 12);
                assert(r == 0xC000 + i * 0x2000 + s * 0x1000) by (bit_vector)
                    requires
                        i <= 1,
                        s <= 1,
                        r == 0b11000000_00000000u16 | (i << 13) | (s << 12),
                ;
                r
            },
            _ => 0x0000,
        }
    }
}

/// Building a ramp or a wait and encoding it is a function of the inputs
/// alone: the same inputs always give the same 16-bit word.
pub proof fn lemma_encoding_deterministic(
    millis1: u16,
    increment1: i8,
    millis2: u16,
    increment2: i8,
    micros1: u32,
    micros2: u32,
)
    requires
        millis1 == millis2,
        increment1 == increment2,
        micros1 == micros2,
    ensures
        ramp_spec(millis1, increment1).code() == ramp_spec(millis2, increment2).code(),
        wait_spec(micros1).code() == wait_spec(micros2).code(),
        0 <= ramp_spec(millis1, increment1).code() < 0x8000,
        0 <= wait_spec(micros1).code() < 0x8000,
{
}

} // verus!
