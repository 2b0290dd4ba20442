//! Tests of the Markov environment model and the prediction-driven
//! decision step.

use uav_ooda::markov::{ConstructionError, MarkovEnvironmentModel};
use uav_ooda::ooda::{Decision, DecisionMaker, OodaLoop};
use uav_ooda::payload::{PayloadManager, PayloadType};
use uav_ooda::sensor::{
    GPSPosition, IMUReading, PayloadStatus, SensorData, Situation, ThreatLevel, Vec3i,
};
use uav_ooda::comms::{LinkType, RadarContact};
use uav_ooda::clock::VirtualClock;
use uav_ooda::models::{MissionType, UavSystems};

fn three_states() -> Vec<String> {
    vec!["clear".to_string(), "rain".to_string(), "fog".to_string()]
}

fn three_state_matrix() -> Vec<Vec<u32>> {
    vec![
        vec![700_000, 200_000, 100_000],
        vec![300_000, 400_000, 300_000],
        vec![200_000, 300_000, 500_000],
    ]
}

fn dummy_imu() -> IMUReading {
    IMUReading {
        accel_mm_s2: Vec3i { x: 0, y: 0, z: 9810 },
        gyro_mrad_s: Vec3i { x: 0, y: 0, z: 0 },
        timestamp: 1000,
    }
}

fn mavlink() -> LinkType {
    LinkType::MAVLink {
        version: 2,
        heartbeat_interval_ms: 500,
    }
}

fn contact(distance_mm: u64, bearing_mdeg: i32, speed_mm_s: i32) -> RadarContact {
    RadarContact {
        distance_mm,
        bearing_mdeg,
        relative_speed_mm_s: speed_mm_s,
        via_link: mavlink(),
    }
}

#[test]
fn test_markov_model_creation() {
    let states = three_states();
    let model = MarkovEnvironmentModel::new(&states, three_state_matrix(), 0).unwrap();

    assert_eq!(model.get_current_state(), "clear");
    assert_eq!(model.get_transition_probability(1), 200_000);
}

#[test]
fn test_invalid_transition_matrix() {
    let states = vec!["clear".to_string(), "rain".to_string()];
    let transition_matrix = vec![
        vec![700_000, 300_000],
        vec![400_000, 600_000],
        vec![200_000, 800_000],
    ];

    let r = MarkovEnvironmentModel::new(&states, transition_matrix, 0);
    assert_eq!(r.unwrap_err(), ConstructionError::DimensionMismatch);
}

#[test]
fn test_invalid_probabilities() {
    let states = vec!["clear".to_string(), "rain".to_string()];
    let transition_matrix = vec![
        vec![700_000, 500_000], // sums to 1.2
        vec![400_000, 600_000],
    ];

    let r = MarkovEnvironmentModel::new(&states, transition_matrix, 0);
    assert_eq!(r.unwrap_err(), ConstructionError::RowSumOutOfTolerance);
}

#[test]
fn test_update_state() {
    let states = three_states();
    let mut model = MarkovEnvironmentModel::new(&states, three_state_matrix(), 0).unwrap();
    assert_eq!(model.get_current_state(), "clear");

    model.update_state(Some(1));
    assert_eq!(model.get_current_state(), "rain");
}

#[test]
fn test_most_likely_next_state() {
    let states = three_states();
    let mut model = MarkovEnvironmentModel::new(&states, three_state_matrix(), 0).unwrap();
    assert_eq!(model.get_most_likely_next_state(), 0);

    model.update_state(Some(2));
    assert_eq!(model.get_most_likely_next_state(), 2);
}

#[test]
fn test_markov_model_transition() {
    let states = three_states();
    let mut model = MarkovEnvironmentModel::new(&states, three_state_matrix(), 0).unwrap();

    assert_eq!(model.get_current_state(), "clear");

    model.update_state(Some(1));
    assert_eq!(model.get_current_state(), "rain");

    model.update_state(Some(2));
    assert_eq!(model.get_current_state(), "fog");

    let next_state = model.predict_next_state();
    assert!(next_state < 3);

    assert_eq!(model.get_most_likely_next_state(), 2);
}

#[test]
fn test_prediction_distribution() {
    // Over many draws the empirical distribution must match the row.
    let states = three_states();
    let model = MarkovEnvironmentModel::new(&states, three_state_matrix(), 0).unwrap();
    let mut counts = [0u64; 3];
    let draws = 100_000u64;
    for _ in 0..draws {
        let s = model.predict_next_state();
        assert!(s < 3);
        counts[s] += 1;
    }
    // Expected 70% / 20% / 10%, each within five points.
    assert!(counts[0] * 100 > draws * 65 && counts[0] * 100 < draws * 75);
    assert!(counts[1] * 100 > draws * 15 && counts[1] * 100 < draws * 25);
    assert!(counts[2] * 100 > draws * 5 && counts[2] * 100 < draws * 15);
}

#[test]
fn test_next_state_for_sample_walk() {
    let states = three_states();
    let model = MarkovEnvironmentModel::new(&states, three_state_matrix(), 0).unwrap();
    // Row from "clear": 0.7, 0.2, 0.1.
    assert_eq!(model.next_state_for_sample(0), 0);
    assert_eq!(model.next_state_for_sample(699_999), 0);
    assert_eq!(model.next_state_for_sample(700_000), 1);
    assert_eq!(model.next_state_for_sample(899_999), 1);
    assert_eq!(model.next_state_for_sample(900_000), 2);
    assert_eq!(model.next_state_for_sample(999_999), 2);
}

#[test]
fn test_ooda_loop_with_markov() {
    let mut ooda = OodaLoop::new();
    let mut uav = UavSystems::new(MissionType::Surveillance);

    for i in 0..4 {
        uav.comms.radar_contacts.push(contact(
            800_000 + (i as u64) * 50_000,
            30_000 + (i as i32) * 20_000,
            15_000,
        ));
    }

    let mut clock = VirtualClock::new(1);
    let cycle_time = ooda.execute_cycle(
        &mut uav.comms,
        &mut uav.payload,
        &mut uav.flight_controller,
        &mut clock,
    );

    assert!(cycle_time > 0);
    assert_eq!(ooda.environment_model.get_current_state(), "urban_canyon");
    assert!(ooda.decision_cache.is_some());
}

#[test]
fn test_environment_classification() {
    let ooda = OodaLoop::new();

    let situation = Situation {
        threat_level: ThreatLevel::High,
    };

    let mut urban_contacts = Vec::new();
    for i in 0..4 {
        urban_contacts.push(contact(
            500_000 + (i as u64) * 100_000,
            45_000 + (i as i32) * 30_000,
            10_000,
        ));
    }
    let urban_data = SensorData {
        imu: dummy_imu(),
        gps: None,
        lidar_range_cm: Some(5000),
        radar_contacts: urban_contacts,
        operator_messages: 1,
        payload_status: PayloadStatus {
            power_mw: 40_000,
            operational: true,
        },
    };

    let gps = GPSPosition {
        latitude_udeg: 37_774_900,
        longitude_udeg: -122_419_400,
        altitude_cm: 10_000,
        accuracy_mm: 10_000,
    };
    let mut forest_contacts = Vec::new();
    for i in 0..2 {
        forest_contacts.push(contact(
            200_000 + (i as u64) * 150_000,
            60_000 + (i as i32) * 20_000,
            5_000,
        ));
    }
    let forest_data = SensorData {
        imu: dummy_imu(),
        gps: Some(gps),
        lidar_range_cm: Some(3000),
        radar_contacts: forest_contacts,
        operator_messages: 0,
        payload_status: PayloadStatus {
            power_mw: 40_000,
            operational: true,
        },
    };

    let mountain_gps = GPSPosition {
        latitude_udeg: 39_550_100,
        longitude_udeg: -105_782_100,
        altitude_cm: 300_000,
        accuracy_mm: 5_000,
    };
    let mountain_data = SensorData {
        imu: dummy_imu(),
        gps: Some(mountain_gps),
        lidar_range_cm: Some(20_000),
        radar_contacts: vec![contact(1_500_000, 90_000, 35_000)],
        operator_messages: 0,
        payload_status: PayloadStatus {
            power_mw: 40_000,
            operational: true,
        },
    };

    let urban_env = ooda.classify_environment(&situation, &urban_data);
    let forest_env = ooda.classify_environment(&situation, &forest_data);
    let mountain_env = ooda.classify_environment(&situation, &mountain_data);

    assert_eq!(urban_env, 4); // urban_canyon
    assert_eq!(forest_env, 5); // forest
    assert_eq!(mountain_env, 6); // mountainous
}

#[test]
fn test_adaptive_decision_making() {
    let mut ooda = OodaLoop::new();
    let low_threat = Situation {
        threat_level: ThreatLevel::Low,
    };
    let payload = PayloadManager::new(Some(PayloadType::SurveillanceCamera {
        resolution_mpx: 20,
        zoom_level: 10,
        thermal_capable: true,
    }));

    ooda.environment_model.update_state(Some(0));
    let decision = ooda.decide_with_prediction(&low_threat, &payload, "urban_canyon");

    assert!(
        matches!(decision, Decision::PrepareMeshNetworking),
        "Expected PrepareMeshNetworking, got {:?}",
        decision
    );

    assert_eq!(
        ooda.environment_model.get_state_name(4),
        "urban_canyon",
        "State index 4 must map to urban_canyon"
    );
}

#[test]
fn test_complete_markov_ooda_cycle() {
    let mut uav = UavSystems::new(MissionType::Surveillance);
    let mut ooda = OodaLoop::new();

    let mut clock = VirtualClock::new(1);
    let cycle_time = ooda.execute_cycle(
        &mut uav.comms,
        &mut uav.payload,
        &mut uav.flight_controller,
        &mut clock,
    );
    assert!(cycle_time > 0);

    ooda.environment_model.update_state(Some(1));

    let cycle_time2 = ooda.execute_cycle(
        &mut uav.comms,
        &mut uav.payload,
        &mut uav.flight_controller,
        &mut clock,
    );
    assert!(cycle_time2 > 0);

    assert!(ooda.environment_model.get_current_state() != "");
    assert!(ooda.decision_cache.is_some());
}

#[test]
fn test_urban_canyon_prediction() {
    let mut ooda = OodaLoop::new();

    let low_threat = Situation {
        threat_level: ThreatLevel::Low,
    };
    let payload = PayloadManager::new(None);

    let decision = ooda.decide_with_prediction(&low_threat, &payload, "urban_canyon");

    println!("Decision type: {:?}", decision);
    assert!(matches!(decision, Decision::PrepareMeshNetworking));
}

#[test]
fn test_debug_urban_canyon() {
    let mut ooda = OodaLoop::new();

    let low_threat = Situation {
        threat_level: ThreatLevel::Low,
    };
    let payload = PayloadManager::new(None);

    let direct_match = match "urban_canyon" {
        "urban_canyon" => true,
        _ => false,
    };
    println!("Direct string match works: {}", direct_match);

    println!("Testing with 'urban_canyon'");
    let decision1 = ooda.decide_with_prediction(&low_threat, &payload, "urban_canyon");
    println!("Decision type: {:?}", decision1);

    println!("Testing with 'Urban Canyon'");
    let decision2 = ooda.decide_with_prediction(&low_threat, &payload, "Urban Canyon");
    println!("Decision type: {:?}", decision2);

    println!("Testing with exact state name");
    let exact_state_name = ooda.environment_model.get_state_name(4).to_string();
    println!("Exact state name: '{}'", exact_state_name);
    let decision3 = ooda.decide_with_prediction(&low_threat, &payload, &exact_state_name);
    println!("Decision type: {:?}", decision3);

    let decision_manual = match "urban_canyon" {
        "heavy_rain" | "fog" => Decision::EnhanceCommsReliability,
        "urban_canyon" => Decision::PrepareMeshNetworking,
        _ => DecisionMaker::make(&low_threat, &payload),
    };
    println!("Manual implementation decision: {:?}", decision_manual);

    assert!(matches!(decision_manual, Decision::PrepareMeshNetworking));
}
