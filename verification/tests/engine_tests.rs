//! Tests of the constraint-to-architecture mapping and cost optimization.

use uav_ooda::engine::{generate_architecture, optimize_cost};
use uav_ooda::models::{
    CommsSystem, DataFusion, FlightControllerType, Processor, SensorSuite, UavConstraints,
};

#[test]
fn test_default_constraints() {
    let constraints = UavConstraints::default();
    assert_eq!(constraints.autonomy_level, 3);
}

#[test]
fn test_default_architecture() {
    let constraints = UavConstraints::default();
    let arch = generate_architecture(&constraints);
    assert!(matches!(arch.processor, Processor::QualcommRB5));
    assert!(matches!(arch.data_fusion, DataFusion::KalmanFilter(_)));
    assert!(matches!(arch.flight_control, FlightControllerType::PX4(_)));
    assert!(matches!(arch.sensors, SensorSuite::GpsEnhanced));
    assert!(matches!(arch.comms, CommsSystem::MAVLink { version: 2 }));
}

#[test]
fn test_secure_comms() {
    let mut constraints = UavConstraints::default();
    constraints.secure_comms = true;
    let arch = generate_architecture(&constraints);
    if let CommsSystem::MilitaryEncrypted { key_rotation } = arch.comms {
        assert_eq!(key_rotation, 24);
    } else {
        panic!("Expected MilitaryEncrypted comms");
    }
}

#[test]
fn test_ai_comms() {
    let mut constraints = UavConstraints::default();
    constraints.requires_ai = true;
    let arch = generate_architecture(&constraints);
    assert!(matches!(arch.comms, CommsSystem::WiFiDirect { bandwidth: 100 }));
}

#[test]
fn test_default_architecture_generation() {
    let constraints = UavConstraints::default();
    let architecture = generate_architecture(&constraints);

    assert_eq!(architecture.processor, Processor::QualcommRB5);

    match &architecture.data_fusion {
        DataFusion::KalmanFilter(config) => {
            assert_eq!(config.process_noise_milli, 100);
            assert_eq!(config.sensor_weight_primary_milli, 700);
            assert_eq!(config.sensor_weight_secondary_milli, 300);
        }
        _ => panic!("Expected KalmanFilter for default constraints"),
    }

    match &architecture.flight_control {
        FlightControllerType::PX4(pid_params) => {
            assert_eq!(pid_params.roll.p_milli, 1200);
            assert_eq!(pid_params.roll.i_milli, 200);
            assert_eq!(pid_params.roll.d_milli, 100);
            assert_eq!(pid_params.yaw.p_milli, 1500);
            assert_eq!(pid_params.yaw.i_milli, 100);
            assert_eq!(pid_params.yaw.d_milli, 200);
        }
        _ => panic!("Expected PX4 for default constraints with autonomy level 3"),
    }

    assert_eq!(architecture.sensors, SensorSuite::GpsEnhanced);

    match &architecture.comms {
        CommsSystem::MAVLink { version } => {
            assert_eq!(*version, 2);
        }
        _ => panic!("Expected MAVLink for default constraints"),
    }
}

#[test]
fn test_secure_architecture_generation() {
    let mut constraints = UavConstraints::default();
    constraints.secure_comms = true;

    let architecture = generate_architecture(&constraints);

    assert_eq!(architecture.processor, Processor::XilinxZynqUltraScale);
    assert_eq!(architecture.sensors, SensorSuite::FullNavigation);

    match &architecture.comms {
        CommsSystem::MilitaryEncrypted { key_rotation } => {
            assert_eq!(*key_rotation, 24);
        }
        _ => panic!("Expected MilitaryEncrypted for secure constraints"),
    }
}

#[test]
fn test_ai_architecture_generation() {
    let mut constraints = UavConstraints::default();
    constraints.requires_ai = true;

    let architecture = generate_architecture(&constraints);

    assert_eq!(architecture.processor, Processor::NvidiaJetsonAGXOrin);
    assert_eq!(architecture.sensors, SensorSuite::Autonomous);

    match &architecture.data_fusion {
        DataFusion::DnnFusion(config) => {
            assert_eq!(config.model_path, "models/object_detection.tract");
            assert_eq!(config.inference_rate, 30);
        }
        _ => panic!("Expected DnnFusion for AI constraints"),
    }

    match &architecture.comms {
        CommsSystem::WiFiDirect { bandwidth } => {
            assert_eq!(*bandwidth, 100);
        }
        _ => panic!("Expected WiFiDirect for AI constraints"),
    }
}

#[test]
fn test_low_autonomy_architecture() {
    let mut constraints = UavConstraints::default();
    constraints.autonomy_level = 1;

    let architecture = generate_architecture(&constraints);

    assert!(
        matches!(architecture.flight_control, FlightControllerType::Betaflight),
        "Expected Betaflight for low autonomy constraints"
    );
}

#[test]
fn test_high_autonomy_architecture() {
    let mut constraints = UavConstraints::default();
    constraints.autonomy_level = 5;

    let architecture = generate_architecture(&constraints);

    match &architecture.flight_control {
        FlightControllerType::Custom(params) => {
            assert_eq!(params.roll.p_milli, 1200);
            assert_eq!(params.pitch.p_milli, 1200);
        }
        _ => panic!("Expected Custom flight controller for high autonomy constraints"),
    }
}

#[test]
fn test_cost_optimization() {
    let default_arch = generate_architecture(&UavConstraints::default());

    let mut secure_constraints = UavConstraints::default();
    secure_constraints.secure_comms = true;
    let secure_arch = generate_architecture(&secure_constraints);

    let mut ai_constraints = UavConstraints::default();
    ai_constraints.requires_ai = true;
    let ai_arch = generate_architecture(&ai_constraints);

    let cheapest = optimize_cost(vec![secure_arch, ai_arch, default_arch]);
    assert_eq!(cheapest.processor, Processor::QualcommRB5);
}

#[test]
fn test_architecture_changes_based_on_constraints() {
    let base_constraints = UavConstraints::default();
    let base_arch = generate_architecture(&base_constraints);

    let mut secure_constraints = base_constraints.clone();
    secure_constraints.secure_comms = true;
    let secure_arch = generate_architecture(&secure_constraints);

    assert_ne!(base_arch.processor, secure_arch.processor);
    assert_ne!(base_arch.comms, secure_arch.comms);

    let mut ai_constraints = base_constraints.clone();
    ai_constraints.requires_ai = true;
    let ai_arch = generate_architecture(&ai_constraints);

    assert_ne!(base_arch.processor, ai_arch.processor);
    assert_ne!(base_arch.data_fusion, ai_arch.data_fusion);

    let mut low_autonomy = base_constraints.clone();
    low_autonomy.autonomy_level = 1;
    let low_arch = generate_architecture(&low_autonomy);

    let mut high_autonomy = base_constraints.clone();
    high_autonomy.autonomy_level = 5;
    let high_arch = generate_architecture(&high_autonomy);

    assert_ne!(low_arch.flight_control, high_arch.flight_control);
}
