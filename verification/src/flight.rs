//! Flight control: mode, the attitude PID regulator, and the altitude
//! actuation interface.
//!
//! Gains, setpoints and outputs are thousandths; time steps are
//! milliseconds; altitude offsets are centimeters.

use vstd::prelude::*;

verus! {

/// The flight mode in force.
#[derive(Debug, Clone, Copy, PartialEq, Eq, Structural)]
pub enum FlightMode {
    Manual,
    GPSHold,
    Autonomous,
    EmergencyLand,
}

/// Division truncating toward zero, as the machine divides.
pub open spec fn trunc_div(a: int, b: int) -> int {
    if a >= 0 {
        a / b
    } else {
        -((-a) / b)
    }
}

/// `v` clamped into `[lo, hi]`.
pub open spec fn spec_clamp(v: int, lo: int, hi: int) -> int {
    if v < lo {
        lo
    } else if v > hi {
        hi
    } else {
        v
    }
}

/// What one regulator step computes from a state and a measurement:
/// the error, the clamped accumulated integral, and the derivative.
pub open spec fn spec_pid_integral(old_integral: int, error: int, dt_ms: int) -> int {
    spec_clamp(old_integral + trunc_div(error * dt_ms, 1000), -100_000, 100_000)
}

/// The derivative term of a step: the error change per time step, zero
/// for a zero step.
pub open spec fn spec_pid_derivative(error: int, last_error: int, dt_ms: int) -> int {
    if dt_ms > 0 {
        trunc_div((error - last_error) * 1000, dt_ms)
    } else {
        0
    }
}

/// The clamped output of a step.
pub open spec fn spec_pid_output(
    kp: int,
    ki: int,
    kd: int,
    error: int,
    integral: int,
    derivative: int,
) -> int {
    spec_clamp(trunc_div(kp * error + ki * integral + kd * derivative, 1000), -1000, 1000)
}

/// A proportional-integral-derivative regulator over thousandth-scaled
/// quantities, with integral anti-windup and a unit output clamp.
#[derive(Debug, Clone, Copy, PartialEq, Eq, Structural)]
pub struct PIDController {
    pub kp_milli: i64,
    pub ki_milli: i64,
    pub kd_milli: i64,
    pub setpoint_milli: i64,
    pub integral_milli: i64,
    pub last_error_milli: i64,
}

/// Gain and state magnitudes under which a step cannot overflow.
pub const PID_VALUE_BOUND: i64 = 1_000_000_000_000;

impl PIDController {
    /// Gains and state bounded for overflow-free stepping.
    pub open spec fn wf(self) -> bool {
        &&& -PID_VALUE_BOUND <= self.kp_milli <= PID_VALUE_BOUND
        &&& -PID_VALUE_BOUND <= self.ki_milli <= PID_VALUE_BOUND
        &&& -PID_VALUE_BOUND <= self.kd_milli <= PID_VALUE_BOUND
        &&& -PID_VALUE_BOUND <= self.setpoint_milli <= PID_VALUE_BOUND
        &&& -100_000 <= self.integral_milli <= 100_000
        &&& -2 * PID_VALUE_BOUND <= self.last_error_milli <= 2 * PID_VALUE_BOUND
    }

    /// A regulator with the given gains, zero setpoint and cleared state.
    pub fn new(kp_milli: i64, ki_milli: i64, kd_milli: i64) -> (r: PIDController)
        requires
            -PID_VALUE_BOUND <= kp_milli <= PID_VALUE_BOUND,
            -PID_VALUE_BOUND <= ki_milli <= PID_VALUE_BOUND,
            -PID_VALUE_BOUND <= kd_milli <= PID_VALUE_BOUND,
        ensures
            r.kp_milli == kp_milli,
            r.ki_milli == ki_milli,
            r.kd_milli == kd_milli,
            r.setpoint_milli == 0,
            r.integral_milli == 0,
            r.last_error_milli == 0,
            r.wf(),
    {
        PIDController {
            kp_milli,
            ki_milli,
            kd_milli,
            setpoint_milli: 0,
            integral_milli: 0,
            last_error_milli: 0,
        }
    }

    /// One regulator step: the error against the setpoint feeds the
    /// clamped integral and the derivative, and the combined output is
    /// clamped to one unit either way.
    pub fn update(&mut self, measurement_milli: i64, dt_ms: u32) -> (output_milli: i64)
        requires
            old(self).wf(),
            -PID_VALUE_BOUND <= measurement_milli <= PID_VALUE_BOUND,
        ensures
            final(self).wf(),
            ({
                let error = old(self).setpoint_milli - measurement_milli;
                let integral = spec_pid_integral(
                    old(self).integral_milli as int,
                    error,
                    dt_ms as int,
                );
                let derivative = spec_pid_derivative(
                    error,
                    old(self).last_error_milli as int,
                    dt_ms as int,
                );
                &&& final(self).integral_milli == integral
                &&& final(self).last_error_milli == error
                &&& output_milli == spec_pid_output(
                    old(self).kp_milli as int,
                    old(self).ki_milli as int,
                    old(self).kd_milli as int,
                    error,
                    integral,
                    derivative,
                )
                &&& -1000 <= output_milli <= 1000
            }),
            final(self).kp_milli == old(self).kp_milli,
            final(self).ki_milli == old(self).ki_milli,
            final(self).kd_milli == old(self).kd_milli,
            final(self).setpoint_milli == old(self).setpoint_milli,
    {
        let error: i64 = self.setpoint_milli - measurement_milli;
        proof {
            assert(-(2_000_000_000_000int * 2int * 4_294_967_295int) <= (error as int) * (
            dt_ms as int) <= 2_000_000_000_000int * 2int * 4_294_967_295int) by (nonlinear_arith)
                requires
                    -2_000_000_000_000int * 2 <= error as int <= 2_000_000_000_000int * 2,
                    0 <= dt_ms as int <= 4_294_967_295int,
            ;
        }
        let raw_integral: i128 = (self.integral_milli as i128) + trunc_div_i128(
            (error as i128) * (dt_ms as i128),
            1000,
        );
        let integral: i64 = if raw_integral < -100_000 {
            -100_000
        } else if raw_integral > 100_000 {
            100_000
        } else {
            raw_integral as i64
        };
        self.integral_milli = integral;

        let derivative: i128 = if dt_ms > 0 {
            trunc_div_i128(((error as i128) - (self.last_error_milli as i128)) * 1000, dt_ms as i128)
        } else {
            0
        };
        self.last_error_milli = error;

        proof {
            lemma_pid_products_bounded(
                self.kp_milli as int,
                self.ki_milli as int,
                self.kd_milli as int,
                error as int,
                integral as int,
                derivative as int,
            );
        }
        let combined: i128 = trunc_div_i128(
            (self.kp_milli as i128) * (error as i128) + (self.ki_milli as i128) * (integral as i128)
                + (self.kd_milli as i128) * derivative,
            1000,
        );
        if combined < -1000 {
            -1000
        } else if combined > 1000 {
            1000
        } else {
            combined as i64
        }
    }
}

/// The three gain products stay far inside the 128-bit range.
proof fn lemma_pid_products_bounded(kp: int, ki: int, kd: int, error: int, integral: int, d: int)
    requires
        -PID_VALUE_BOUND <= kp <= PID_VALUE_BOUND,
        -PID_VALUE_BOUND <= ki <= PID_VALUE_BOUND,
        -PID_VALUE_BOUND <= kd <= PID_VALUE_BOUND,
        -2 * PID_VALUE_BOUND <= error <= 2 * PID_VALUE_BOUND,
        -100_000 <= integral <= 100_000,
        -4_000_000_000_000_000 <= d <= 4_000_000_000_000_000,
    ensures
        -(2_000_000_000_000_000_000_000_000int) <= kp * error <= 2_000_000_000_000_000_000_000_000int,
        -(100_000_000_000_000_000int) <= ki * integral <= 100_000_000_000_000_000int,
        -(4_000_000_000_000_000_000_000_000_000int) <= kd * d
            <= 4_000_000_000_000_000_000_000_000_000int,
        -(0x7fff_ffff_ffff_ffff_ffff_ffff_ffff_0000int) <= kp * error + ki * integral + kd * d
            <= 0x7fff_ffff_ffff_ffff_ffff_ffff_ffff_0000int,
{
    assert(-(2_000_000_000_000_000_000_000_000int) <= kp * error <= 2_000_000_000_000_000_000_000_000int)
        by (nonlinear_arith)
        requires
            -PID_VALUE_BOUND <= kp <= PID_VALUE_BOUND,
            -2 * PID_VALUE_BOUND <= error <= 2 * PID_VALUE_BOUND,
            PID_VALUE_BOUND == 1_000_000_000_000i64,
    ;
    assert(-(100_000_000_000_000_000int) <= ki * integral <= 100_000_000_000_000_000int)
        by (nonlinear_arith)
        requires
            -PID_VALUE_BOUND <= ki <= PID_VALUE_BOUND,
            -100_000 <= integral <= 100_000,
            PID_VALUE_BOUND == 1_000_000_000_000i64,
    ;
    assert(-(4_000_000_000_000_000_000_000_000_000int) <= kd * d
        <= 4_000_000_000_000_000_000_000_000_000int) by (nonlinear_arith)
        requires
            -PID_VALUE_BOUND <= kd <= PID_VALUE_BOUND,
            -4_000_000_000_000_000 <= d <= 4_000_000_000_000_000,
            PID_VALUE_BOUND == 1_000_000_000_000i64,
    ;
}

/// Division of 128-bit integers truncating toward zero.
fn trunc_div_i128(a: i128, b: i128) -> (r: i128)
    requires
        b > 0,
        -0x7fff_ffff_ffff_ffff_ffff_ffff_ffff_ffffi128 <= a,
    ensures
        r == trunc_div(a as int, b as int),
        a >= 0 ==> 0 <= r <= a,
        a < 0 ==> a <= r <= 0,
{
    if a >= 0 {
        let q = a / b;
        proof {
            assert(a / b <= a) by (nonlinear_arith)
                requires
                    a >= 0,
                    b > 0,
            ;
            assert(a / b >= 0) by (nonlinear_arith)
                requires
                    a >= 0,
                    b > 0,
            ;
        }
        q
    } else {
        let m = -a;
        let q = m / b;
        proof {
            assert(m / b <= m) by (nonlinear_arith)
                requires
                    m >= 0,
                    b > 0,
            ;
            assert(m / b >= 0) by (nonlinear_arith)
                requires
                    m >= 0,
                    b > 0,
            ;
        }
        -q
    }
}

impl From<(i64, i64, i64)> for PIDController {
    /// A regulator from a gain triple, as `new` builds it; gains outside
    /// the safe bound are clamped to it.
    fn from(params: (i64, i64, i64)) -> (r: PIDController) {
        PIDController::new(
            clamp_gain(params.0),
            clamp_gain(params.1),
            clamp_gain(params.2),
        )
    }
}

impl vstd::std_specs::convert::FromSpecImpl<(i64, i64, i64)> for PIDController {
    open spec fn obeys_from_spec() -> bool {
        true
    }

    open spec fn from_spec(params: (i64, i64, i64)) -> PIDController {
        PIDController {
            kp_milli: spec_clamp(params.0 as int, -PID_VALUE_BOUND as int, PID_VALUE_BOUND as int)
                as i64,
            ki_milli: spec_clamp(params.1 as int, -PID_VALUE_BOUND as int, PID_VALUE_BOUND as int)
                as i64,
            kd_milli: spec_clamp(params.2 as int, -PID_VALUE_BOUND as int, PID_VALUE_BOUND as int)
                as i64,
            setpoint_milli: 0,
            integral_milli: 0,
            last_error_milli: 0,
        }
    }
}

/// A gain clamped into the overflow-safe bound.
fn clamp_gain(g: i64) -> (r: i64)
    ensures
        r == spec_clamp(g as int, -PID_VALUE_BOUND as int, PID_VALUE_BOUND as int),
{
    if g < -PID_VALUE_BOUND {
        -PID_VALUE_BOUND
    } else if g > PID_VALUE_BOUND {
        PID_VALUE_BOUND
    } else {
        g
    }
}

/// The flight-control collaborator: the mode in force, the attitude
/// regulator, a stability threshold, and the commanded altitude offset
/// accumulated from the control cycle's actions.
#[derive(Debug, Clone, Copy, PartialEq, Eq, Structural)]
pub struct FlightController {
    pub mode: FlightMode,
    pub pid: PIDController,
    /// Stability threshold in thousandths.
    pub stability_threshold_milli: u32,
    /// Net altitude change commanded so far, in centimeters.
    pub altitude_offset_cm: i64,
}

impl FlightController {
    /// Manual mode with the stock gains.
    pub fn new() -> (r: FlightController)
        ensures
            r.mode == FlightMode::Manual,
            r.pid.kp_milli == 800,
            r.pid.ki_milli == 200,
            r.pid.kd_milli == 100,
            r.pid.setpoint_milli == 0,
            r.pid.integral_milli == 0,
            r.pid.last_error_milli == 0,
            r.stability_threshold_milli == 2500,
            r.altitude_offset_cm == 0,
    {
        FlightController {
            mode: FlightMode::Manual,
            pid: PIDController::new(800, 200, 100),
            stability_threshold_milli: 2500,
            altitude_offset_cm: 0,
        }
    }

    /// Manual mode with the given gain triple.
    pub fn from_params(params: (i64, i64, i64)) -> (r: FlightController)
        ensures
            r.mode == FlightMode::Manual,
            r.pid.kp_milli == spec_clamp(
                params.0 as int,
                -PID_VALUE_BOUND as int,
                PID_VALUE_BOUND as int,
            ),
            r.pid.ki_milli == spec_clamp(
                params.1 as int,
                -PID_VALUE_BOUND as int,
                PID_VALUE_BOUND as int,
            ),
            r.pid.kd_milli == spec_clamp(
                params.2 as int,
                -PID_VALUE_BOUND as int,
                PID_VALUE_BOUND as int,
            ),
            r.stability_threshold_milli == 2500,
            r.altitude_offset_cm == 0,
    {
        FlightController {
            mode: FlightMode::Manual,
            pid: PIDController::new(
                clamp_gain(params.0),
                clamp_gain(params.1),
                clamp_gain(params.2),
            ),
            stability_threshold_milli: 2500,
            altitude_offset_cm: 0,
        }
    }

    /// Commands an altitude change; the offset accumulates, saturating
    /// at the 64-bit bounds.
    pub fn adjust_altitude(&mut self, delta_cm: i64)
        ensures
            final(self).mode == old(self).mode,
            final(self).pid == old(self).pid,
            final(self).altitude_offset_cm == spec_sat_add_i64(
                old(self).altitude_offset_cm as int,
                delta_cm as int,
            ),
    {
        let sum: i128 = (self.altitude_offset_cm as i128) + (delta_cm as i128);
        self.altitude_offset_cm = if sum > 0x7fff_ffff_ffff_ffff_i128 {
            0x7fff_ffff_ffff_ffff
        } else if sum < -0x8000_0000_0000_0000_i128 {
            -0x8000_0000_0000_0000
        } else {
            sum as i64
        };
    }
}

/// `a + b` saturating at the signed 64-bit bounds.
pub open spec fn spec_sat_add_i64(a: int, b: int) -> int {
    if a + b > i64::MAX {
        i64::MAX as int
    } else if a + b < i64::MIN {
        i64::MIN as int
    } else {
        a + b
    }
}

} // verus!
