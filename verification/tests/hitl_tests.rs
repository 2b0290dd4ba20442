//! Hardware-in-the-loop style tests: the regulator against a small
//! altitude simulator. Altitudes and outputs are in thousandths; time
//! steps are milliseconds.

use uav_ooda::flight::PIDController;

struct Simulator {
    current_altitude_milli: i64,
    control_inputs: Vec<(i64, i64, i64)>,
}

impl Simulator {
    fn new(initial_altitude_milli: i64) -> Self {
        Self {
            current_altitude_milli: initial_altitude_milli,
            control_inputs: Vec::new(),
        }
    }

    fn get_altitude(&self) -> i64 {
        self.current_altitude_milli
    }

    fn apply_control(&mut self, control: (i64, i64, i64)) {
        self.control_inputs.push(control);
        // Half a unit of altitude per unit of control.
        self.current_altitude_milli += control.2 / 2;
    }
}

#[test]
fn hitl_tests_test_pid_control() {
    let mut sim = Simulator::new(100_000);
    let mut pid = PIDController::new(800, 200, 100);
    pid.setpoint_milli = 150_000;

    for _ in 0..10 {
        let altitude = sim.get_altitude();
        let control_output = pid.update(altitude, 100);
        sim.apply_control((0, 0, control_output));

        assert!(control_output >= -1000 && control_output <= 1000);
    }

    // After several iterations, the altitude has moved toward the
    // setpoint: near 125 within the allowed margin of 25.
    let final_altitude = sim.get_altitude();
    assert!(final_altitude >= 100_000 && final_altitude <= 150_000);
}

#[test]
fn hitl_test_pid_control() {
    let mut sim = Simulator::new(100_000);
    let mut pid = PIDController::new(800, 200, 100);
    pid.setpoint_milli = 150_000;

    for _ in 0..10 {
        let altitude = sim.get_altitude();
        let control_output = pid.update(altitude, 100);
        sim.apply_control((0, 0, control_output));
    }
}
