//! Server-side autonomous simulator.
//!
//! On every tick of its interval a scheduled point's value is advanced
//! according to its [`SimSchedule`]. What needs no floating-point arithmetic is
//! advanced here. For the float-valued schedules [`advance`] hands out the
//! operands, and [`settle`] makes a point value of the sample that was
//! computed from them.

use vstd::prelude::*;
use crate::wire::{DoublePointWire, PointValue, SimSchedule};

verus! {

/// The tick interval of a schedule; `None` if it never ticks.
pub open spec fn interval_of(schedule: SimSchedule) -> Option<u64> {
    match schedule {
        SimSchedule::Hold => None,
        SimSchedule::Toggle { interval_ms, .. } => Some(interval_ms),
        SimSchedule::Rotate { interval_ms } => Some(interval_ms),
        SimSchedule::RandomWalk { interval_ms, .. } => Some(interval_ms),
        SimSchedule::StepUp { interval_ms, .. } => Some(interval_ms),
        SimSchedule::Sine { interval_ms, .. } => Some(interval_ms),
    }
}

/// Extract the primary tick interval from a schedule.
pub fn schedule_interval_ms(sched: &SimSchedule) -> (r: Option<u64>)
    ensures
        r == interval_of(*sched),
{
    match sched {
        SimSchedule::Hold => None,
        SimSchedule::Toggle { interval_ms, .. } => Some(*interval_ms),
        SimSchedule::Rotate { interval_ms } => Some(*interval_ms),
        SimSchedule::RandomWalk { interval_ms, .. } => Some(*interval_ms),
        SimSchedule::StepUp { interval_ms, .. } => Some(*interval_ms),
        SimSchedule::Sine { interval_ms, .. } => Some(*interval_ms),
    }
}

/// Extract the initial phase offset (used for staggering).
pub fn schedule_phase_ms(sched: &SimSchedule) -> (r: u64)
    ensures
        r == (match *sched {
            SimSchedule::Toggle { phase_ms, .. } => phase_ms,
            _ => 0,
        }),
{
    match sched {
        SimSchedule::Toggle { phase_ms, .. } => *phase_ms,
        _ => 0,
    }
}

/// How the next value of a point comes about.
#[derive(Debug, Clone, Copy, PartialEq, Eq, Structural)]
pub enum Advance {
    /// The next value.
    Value(PointValue),
    /// `from` plus or minus `step` with even odds, clamped to `[min, max]`.
    Walk { from: u32, step: u32, min: u32, max: u32, normalized: bool },
    /// `amplitude * sin(2 * pi * tick / ticks) + offset`; clamped to
    /// `[-1, 1]` if `normalized`.
    Wave { tick: u64, ticks: u64, amplitude: u32, offset: u32, normalized: bool },
}

/// The wrapped step: the remainder of `sum` on division by `wrap_at`, never
/// negative, cut down to what a scaled value can hold.
pub open spec fn wrapped(sum: int, wrap_at: int) -> int {
    let modulus = if wrap_at < 0 {
        -wrap_at
    } else {
        wrap_at
    };
    let rest = sum % modulus;
    if rest > i16::MAX {
        i16::MAX as int
    } else {
        rest
    }
}

/// The scaled value that a step counts from.
pub open spec fn scaled_of(current: Option<PointValue>) -> int {
    match current {
        Some(PointValue::Scaled(s)) => s as int,
        _ => 0,
    }
}

/// The bit pattern that a walk starts from; 0.0 where the point holds no
/// floating-point number.
pub open spec fn float_of(current: Option<PointValue>) -> u32 {
    match current {
        Some(PointValue::Normalized(bits)) => bits,
        Some(PointValue::Float(bits)) => bits,
        _ => 0,
    }
}

/// Number of ticks in one period of a wave, whole ticks only; 0 and 1
/// millisecond count alike.
pub open spec fn ticks_per_period(period_ms: u64, interval_ms: u64) -> int {
    (if period_ms == 0 {
        1int
    } else {
        period_ms as int
    }) / (if interval_ms == 0 {
        1int
    } else {
        interval_ms as int
    })
}

/// What the tick with number `elapsed_ticks` makes of a point.
pub open spec fn advanced(
    schedule: SimSchedule,
    current: Option<PointValue>,
    elapsed_ticks: u64,
) -> Option<Advance> {
    let normalized = current matches Some(PointValue::Normalized(_));
    match schedule {
        SimSchedule::Hold => None,
        SimSchedule::Toggle { .. } => Some(
            Advance::Value(PointValue::Single(current != Some(PointValue::Single(true)))),
        ),
        SimSchedule::Rotate { .. } => Some(
            Advance::Value(
                PointValue::Double(
                    if current == Some(PointValue::Double(DoublePointWire::Off)) {
                        DoublePointWire::On
                    } else {
                        DoublePointWire::Off
                    },
                ),
            ),
        ),
        SimSchedule::RandomWalk { step, min, max, .. } => Some(
            Advance::Walk { from: float_of(current), step, min, max, normalized },
        ),
        SimSchedule::StepUp { step, wrap_at, .. } => Some(
            Advance::Value(
                PointValue::Scaled(wrapped(scaled_of(current) + step, wrap_at as int) as i16),
            ),
        ),
        SimSchedule::Sine { period_ms, interval_ms, amplitude, offset, .. } => {
            let ticks = ticks_per_period(period_ms, interval_ms);
            Some(
                Advance::Wave {
                    tick: if ticks == 0 {
                        0
                    } else {
                        (elapsed_ticks as int % ticks) as u64
                    },
                    ticks: if ticks == 0 {
                        1
                    } else {
                        ticks as u64
                    },
                    amplitude,
                    offset,
                    normalized,
                },
            )
        },
    }
}

/// Whether a step can be computed: there is a modulus, and neither the sum nor
/// the remainder overflows 32 bits.
pub open spec fn steps(schedule: SimSchedule, current: Option<PointValue>) -> bool {
    match schedule {
        SimSchedule::StepUp { step, wrap_at, .. } => {
            let sum = scaled_of(current) + step;
            &&& wrap_at != 0
            &&& i32::MIN <= sum <= i32::MAX
            &&& !(sum == i32::MIN && wrap_at == -1)
        },
        _ => true,
    }
}

/// Whether a step can be computed.
pub fn can_advance(schedule: &SimSchedule, current: &PointValue) -> (b: bool)
    ensures
        b == steps(*schedule, Some(*current)),
{
    match schedule {
        SimSchedule::StepUp { step, wrap_at, .. } => {
            let from: i64 = match current {
                PointValue::Scaled(s) => *s as i64,
                _ => 0,
            };
            let sum: i64 = from + *step as i64;
            *wrap_at != 0 && i32::MIN as i64 <= sum && sum <= i32::MAX as i64 && !(sum
                == i32::MIN as i64 && *wrap_at == -1)
        },
        _ => true,
    }
}

proof fn lemma_negative_rest(sum: int, modulus: int)
    requires
        sum < 0,
        modulus > 0,
    ensures
        sum % modulus == (if (-sum) % modulus == 0 {
            0
        } else {
            modulus - (-sum) % modulus
        }),
{
    let rest = (-sum) % modulus;
    let q = (-sum) / modulus;
    assert(-sum == modulus * q + rest && 0 <= rest < modulus) by (nonlinear_arith)
        requires
            modulus > 0,
            rest == (-sum) % modulus,
            q == (-sum) / modulus,
    ;
    if rest == 0 {
        assert(sum == (-q) * modulus + 0) by (nonlinear_arith)
            requires
                -sum == modulus * q + rest,
                rest == 0,
        ;
        vstd::arithmetic::div_mod::lemma_fundamental_div_mod_converse(sum, modulus, -q, 0);
    } else {
        assert(sum == (-q - 1) * modulus + (modulus - rest)) by (nonlinear_arith)
            requires
                -sum == modulus * q + rest,
        ;
        vstd::arithmetic::div_mod::lemma_fundamental_div_mod_converse(
            sum,
            modulus,
            -q - 1,
            modulus - rest,
        );
    }
}

fn wrap(sum: i32, wrap_at: i32) -> (r: i16)
    requires
        wrap_at != 0,
    ensures
        r == wrapped(sum as int, wrap_at as int),
{
    let modulus: u64 = if wrap_at < 0 {
        (-(wrap_at as i64)) as u64
    } else {
        wrap_at as u64
    };
    let rest: u64 = if sum >= 0 {
        sum as u64 % modulus
    } else {
        proof { lemma_negative_rest(sum as int, modulus as int); }
        let short: u64 = ((-(sum as i64)) as u64) % modulus;
        if short == 0 {
            0
        } else {
            modulus - short
        }
    };
    if rest > 32767 {
        32767
    } else {
        rest as i16
    }
}

/// Compute the next value for the given schedule given the current value and
/// the number of ticks elapsed (1-based). Returns `None` when no change is
/// needed (e.g. [`SimSchedule::Hold`]).
pub fn advance(schedule: &SimSchedule, current: Option<&PointValue>, elapsed_ticks: u64) -> (r:
    Option<Advance>)
    requires
        steps(
            *schedule,
            match current {
                Some(v) => Some(*v),
                None => None,
            },
        ),
    ensures
        r == advanced(
            *schedule,
            match current {
                Some(v) => Some(*v),
                None => None,
            },
            elapsed_ticks,
        ),
{
    let normalized: bool = matches!(current, Some(PointValue::Normalized(_)));
    match schedule {
        SimSchedule::Hold => None,
        SimSchedule::Toggle { .. } => {
            let on: bool = match current {
                Some(PointValue::Single(b)) => !*b,
                _ => true,
            };
            Some(Advance::Value(PointValue::Single(on)))
        },
        SimSchedule::Rotate { .. } => {
            let next = match current {
                Some(PointValue::Double(DoublePointWire::Off)) => DoublePointWire::On,
                _ => DoublePointWire::Off,
            };
            Some(Advance::Value(PointValue::Double(next)))
        },
        SimSchedule::RandomWalk { step, min, max, .. } => {
            let from: u32 = match current {
                Some(PointValue::Normalized(bits)) => *bits,
                Some(PointValue::Float(bits)) => *bits,
                _ => 0,
            };
            Some(Advance::Walk { from, step: *step, min: *min, max: *max, normalized })
        },
        SimSchedule::StepUp { step, wrap_at, .. } => {
            let from: i32 = match current {
                Some(PointValue::Scaled(s)) => *s as i32,
                _ => 0,
            };
            Some(Advance::Value(PointValue::Scaled(wrap(from + *step, *wrap_at))))
        },
        SimSchedule::Sine { period_ms, interval_ms, amplitude, offset, .. } => {
            let period: u64 = if *period_ms == 0 {
                1
            } else {
                *period_ms
            };
            let interval: u64 = if *interval_ms == 0 {
                1
            } else {
                *interval_ms
            };
            let ticks: u64 = period / interval;
            let wave = if ticks == 0 {
                Advance::Wave {
                    tick: 0,
                    ticks: 1,
                    amplitude: *amplitude,
                    offset: *offset,
                    normalized,
                }
            } else {
                Advance::Wave {
                    tick: elapsed_ticks % ticks,
                    ticks,
                    amplitude: *amplitude,
                    offset: *offset,
                    normalized,
                }
            };
            Some(wave)
        },
    }
}

/// The point value that a computed sample makes: a normalized point stays one,
/// every other point becomes a float.
pub open spec fn settled(normalized: bool, sample: u32) -> PointValue {
    if normalized {
        PointValue::Normalized(sample)
    } else {
        PointValue::Float(sample)
    }
}

/// Make a point value of a computed sample.
pub fn settle(normalized: bool, sample: u32) -> (v: PointValue)
    ensures
        v == settled(normalized, sample),
{
    if normalized {
        PointValue::Normalized(sample)
    } else {
        PointValue::Float(sample)
    }
}

/// Two ticks of a toggled or rotated point bring its value back.
pub proof fn law_toggle_and_rotate_alternate(
    interval_ms: u64,
    phase_ms: u64,
    on: bool,
    closed: bool,
    tick: u64,
)
    ensures
        advanced(
            SimSchedule::Toggle { interval_ms, phase_ms },
            Some(PointValue::Single(on)),
            tick,
        ) == Some(Advance::Value(PointValue::Single(!on))),
        advanced(
            SimSchedule::Rotate { interval_ms },
            Some(
                PointValue::Double(
                    if closed {
                        DoublePointWire::On
                    } else {
                        DoublePointWire::Off
                    },
                ),
            ),
            tick,
        ) == Some(
            Advance::Value(
                PointValue::Double(
                    if closed {
                        DoublePointWire::Off
                    } else {
                        DoublePointWire::On
                    },
                ),
            ),
        ),
{
}

/// A stepped point stays between 0 and its bound: it never reaches the bound
/// itself, and it moves by exactly one step while it stays below the bound.
pub proof fn law_step_up_wraps(interval_ms: u64, step: i32, wrap_at: i32, s: i16, tick: u64)
    requires
        steps(SimSchedule::StepUp { interval_ms, step, wrap_at }, Some(PointValue::Scaled(s))),
        0 < wrap_at <= i16::MAX,
    ensures
        ({
            let next = advanced(
                SimSchedule::StepUp { interval_ms, step, wrap_at },
                Some(PointValue::Scaled(s)),
                tick,
            );
            &&& next matches Some(Advance::Value(PointValue::Scaled(v)))
            &&& 0 <= v < wrap_at
            &&& 0 <= s + step < wrap_at ==> v == s + step
            &&& s + step == wrap_at ==> v == 0
        }),
{
    if s + step == wrap_at {
        vstd::arithmetic::div_mod::lemma_mod_self_0(wrap_at as int);
    } else if 0 <= s + step < wrap_at {
        vstd::arithmetic::div_mod::lemma_small_mod((s + step) as nat, wrap_at as nat);
    }
}

/// A wave's phase always lies within one period.
pub proof fn law_wave_phase(
    interval_ms: u64,
    period_ms: u64,
    amplitude: u32,
    offset: u32,
    current: Option<PointValue>,
    tick: u64,
)
    ensures
        ({
            let next = advanced(
                SimSchedule::Sine { interval_ms, period_ms, amplitude, offset },
                current,
                tick,
            );
            &&& next matches Some(Advance::Wave { tick: t, ticks, .. })
            &&& 0 <= t < ticks
        }),
{
    let period = if period_ms == 0 {
        1int
    } else {
        period_ms as int
    };
    let interval = if interval_ms == 0 {
        1int
    } else {
        interval_ms as int
    };
    let ticks = ticks_per_period(period_ms, interval_ms);
    assert(0 <= ticks <= period) by (nonlinear_arith)
        requires
            ticks == period / interval,
            period >= 1,
            interval >= 1,
    ;
}

/// How each schedule goes on, whatever the point holds: a held point is left
/// alone; a toggled one is on unless it was on; a rotated one is on if it was
/// off, and off otherwise; a walk starts from the point's number, or from zero,
/// and a wave takes no notice of it.
pub proof fn law_schedules(
    current: Option<PointValue>,
    elapsed: u64,
    interval_ms: u64,
    phase_ms: u64,
    x: u32,
    y: u32,
    z: u32,
)
    ensures
        advanced(SimSchedule::Hold, current, elapsed) is None,
        advanced(SimSchedule::Toggle { interval_ms, phase_ms }, current, elapsed) == Some(
            Advance::Value(
                PointValue::Single(
                    match current {
                        Some(PointValue::Single(on)) => !on,
                        _ => true,
                    },
                ),
            ),
        ),
        advanced(SimSchedule::Rotate { interval_ms }, current, elapsed) == Some(
            Advance::Value(
                PointValue::Double(
                    match current {
                        Some(PointValue::Double(DoublePointWire::Off)) => DoublePointWire::On,
                        _ => DoublePointWire::Off,
                    },
                ),
            ),
        ),
        advanced(SimSchedule::RandomWalk { interval_ms, step: x, min: y, max: z }, current, elapsed)
            == Some(
            Advance::Walk {
                from: match current {
                    Some(PointValue::Normalized(bits)) => bits,
                    Some(PointValue::Float(bits)) => bits,
                    _ => 0,
                },
                step: x,
                min: y,
                max: z,
                normalized: current matches Some(PointValue::Normalized(_)),
            },
        ),
{
}

/// A step adds and wraps: the next value and the sum differ by a multiple of the
/// bound, and the next value lies between 0 and the bound, cut to 32767.
pub proof fn law_step_up_congruent(interval_ms: u64, step: i32, wrap_at: i32, s: i16, tick: u64)
    requires
        steps(SimSchedule::StepUp { interval_ms, step, wrap_at }, Some(PointValue::Scaled(s))),
        wrap_at > 0,
    ensures
        advanced(
            SimSchedule::StepUp { interval_ms, step, wrap_at },
            Some(PointValue::Scaled(s)),
            tick,
        ) matches Some(Advance::Value(PointValue::Scaled(v))) && {
            let rest = (s + step) % (wrap_at as int);
            &&& 0 <= v
            &&& rest <= 32767 ==> v == rest
            &&& rest > 32767 ==> v == 32767
        },
{
}

/// A wave with a whole number of ticks to its period is sampled at the tick
/// that it has come to within the period.
pub proof fn law_wave_sampled(
    interval_ms: u64,
    n: int,
    period_ms: u64,
    amplitude: u32,
    offset: u32,
    current: Option<PointValue>,
    tick: u64,
)
    requires
        interval_ms > 0,
        n > 0,
        period_ms == n * interval_ms,
    ensures
        advanced(
            SimSchedule::Sine { interval_ms, period_ms, amplitude, offset },
            current,
            tick,
        ) == Some(
            Advance::Wave {
                tick: (tick as int % n) as u64,
                ticks: n as u64,
                amplitude,
                offset,
                normalized: current matches Some(PointValue::Normalized(_)),
            },
        ),
{
    assert(period_ms as int / interval_ms as int == n && period_ms > 0) by (nonlinear_arith)
        requires
            period_ms == n * interval_ms,
            interval_ms > 0,
            n > 0,
    ;
}

/// A point ticks unless it is held, in the interval that its schedule names.
pub proof fn law_intervals(interval_ms: u64, p: u64, a: u32, b: u32, c: u32, step: i32, wrap_at: i32)
    ensures
        interval_of(SimSchedule::Hold) is None,
        interval_of(SimSchedule::Toggle { interval_ms, phase_ms: p }) == Some(interval_ms),
        interval_of(SimSchedule::Rotate { interval_ms }) == Some(interval_ms),
        interval_of(SimSchedule::RandomWalk { interval_ms, step: a, min: b, max: c }) == Some(
            interval_ms,
        ),
        interval_of(SimSchedule::StepUp { interval_ms, step, wrap_at }) == Some(interval_ms),
        interval_of(SimSchedule::Sine { interval_ms, period_ms: p, amplitude: a, offset: b })
            == Some(interval_ms),
        settled(true, a) == PointValue::Normalized(a),
        settled(false, a) == PointValue::Float(a),
{
}

/// A step of a point that holds no scaled value counts from zero, and a bound
/// below zero counts like the one above.
pub proof fn law_step_up_from_zero(interval_ms: u64, step: i32, wrap_at: i32, value: PointValue, tick: u64)
    requires
        wrap_at != 0,
        wrap_at > i32::MIN,
        step > i32::MIN,
    ensures
        ({
            let rest = step as int % (if wrap_at < 0 {
                -wrap_at
            } else {
                wrap_at as int
            });
            let v = if rest > 32767 {
                32767int
            } else {
                rest
            };
            let next = Some(Advance::Value(PointValue::Scaled(v as i16)));
            let schedule = SimSchedule::StepUp { interval_ms, step, wrap_at };
            &&& advanced(schedule, None, tick) == next
            &&& !(value is Scaled) ==> advanced(schedule, Some(value), tick) == next
        }),
{
}

/// A step can be computed unless the bound is zero or the sum leaves 32 bits,
/// or is the lowest number with bound -1. Every other schedule goes on always.
pub proof fn law_steps(interval_ms: u64, step: i32, wrap_at: i32, s: i16, other: SimSchedule)
    ensures
        steps(SimSchedule::StepUp { interval_ms, step, wrap_at }, Some(PointValue::Scaled(s))) <==> {
            &&& wrap_at != 0
            &&& -2147483648 <= s + step <= 2147483647
            &&& !(s + step == -2147483648 && wrap_at == -1)
        },
        !(other is StepUp) ==> steps(other, Some(PointValue::Scaled(s))),
{
}

/// A wave whose period is shorter than its interval is sampled at its start;
/// an interval of nothing counts as one millisecond, and so does a period.
pub proof fn law_short_wave(
    interval_ms: u64,
    period_ms: u64,
    amplitude: u32,
    offset: u32,
    current: Option<PointValue>,
    tick: u64,
)
    ensures
        period_ms < interval_ms && interval_ms > 1 ==> advanced(
            SimSchedule::Sine { interval_ms, period_ms, amplitude, offset },
            current,
            tick,
        ) == Some(
            Advance::Wave {
                tick: 0,
                ticks: 1,
                amplitude,
                offset,
                normalized: current matches Some(PointValue::Normalized(_)),
            },
        ),
        advanced(SimSchedule::Sine { interval_ms: 0, period_ms, amplitude, offset }, current, tick)
            == advanced(
            SimSchedule::Sine { interval_ms: 1, period_ms, amplitude, offset },
            current,
            tick,
        ),
        advanced(SimSchedule::Sine { interval_ms, period_ms: 0, amplitude, offset }, current, tick)
            == advanced(
            SimSchedule::Sine { interval_ms, period_ms: 1, amplitude, offset },
            current,
            tick,
        ),
{
    if period_ms < interval_ms && interval_ms > 1 {
        let period = if period_ms == 0 {
            1int
        } else {
            period_ms as int
        };
        vstd::arithmetic::div_mod::lemma_basic_div(period, interval_ms as int);
    }
}

} // verus!
