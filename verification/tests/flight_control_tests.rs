//! Tests of the regulator and the flight controller.

use uav_ooda::flight::{FlightController, FlightMode, PIDController};

#[test]
fn test_pid_controller_creation() {
    let pid = PIDController::new(1000, 500, 200);

    assert_eq!(pid.kp_milli, 1000);
    assert_eq!(pid.ki_milli, 500);
    assert_eq!(pid.kd_milli, 200);
    assert_eq!(pid.setpoint_milli, 0);
}

#[test]
fn test_pid_controller_from_tuple() {
    let params = (1000, 500, 200);
    let pid = PIDController::from(params);

    assert_eq!(pid.kp_milli, 1000);
    assert_eq!(pid.ki_milli, 500);
    assert_eq!(pid.kd_milli, 200);
}

#[test]
fn test_pid_controller_update() {
    let mut pid = PIDController::new(1000, 100, 50);
    pid.setpoint_milli = 10_000;

    // First step, error 5.0: proportional 5, integral 0.05,
    // derivative 2.5 -- the 7.55 total clamps to 1.0.
    let output1 = pid.update(5_000, 100);
    assert_eq!(output1, 1000);

    // Second step, error 2.0: proportional 2, integral 0.07,
    // derivative -1.5 -- total 0.57.
    let output2 = pid.update(8_000, 100);
    assert_eq!(output2, 570);
}

#[test]
fn test_flight_controller_creation() {
    let fc = FlightController::new();

    assert_eq!(fc.mode, FlightMode::Manual);
    assert_eq!(fc.stability_threshold_milli, 2500);
}

#[test]
fn test_flight_controller_from_params() {
    let fc = FlightController::from_params((1200, 200, 100));

    assert_eq!(fc.mode, FlightMode::Manual);
    assert_eq!(fc.pid.kp_milli, 1200);
    assert_eq!(fc.pid.ki_milli, 200);
    assert_eq!(fc.pid.kd_milli, 100);
}

#[test]
fn test_adjust_altitude_accumulates() {
    let mut fc = FlightController::new();
    fc.adjust_altitude(100);
    fc.adjust_altitude(-30);
    assert_eq!(fc.altitude_offset_cm, 70);
}
