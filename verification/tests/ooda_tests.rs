//! Tests of the decision rules and the full control cycle.

use uav_ooda::clock::VirtualClock;
use uav_ooda::comms::{CommunicationHub, LinkType, RadarContact};
use uav_ooda::flight::FlightController;
use uav_ooda::ooda::{Decision, DecisionMaker, OodaLoop};
use uav_ooda::payload::{PayloadManager, PayloadType};
use uav_ooda::sensor::{Situation, ThreatLevel};

#[test]
fn test_ooda_loop_creation() {
    let ooda = OodaLoop::new();

    assert_eq!(ooda.last_cycle_time_ns, 0);
    assert!(ooda.decision_cache.is_none());
}

#[test]
fn test_decision_matching() {
    let altitude_decision = Decision::ChangeAltitude(100);
    let mode_decision = Decision::SwitchPayloadMode;

    let high_threat = Situation {
        threat_level: ThreatLevel::High,
    };
    let medium_threat = Situation {
        threat_level: ThreatLevel::Medium,
    };
    let low_threat = Situation {
        threat_level: ThreatLevel::Low,
    };

    assert!(altitude_decision.matches(&high_threat));
    assert!(mode_decision.matches(&medium_threat));
    assert!(mode_decision.matches(&low_threat));

    assert!(!altitude_decision.matches(&medium_threat));
    assert!(!altitude_decision.matches(&low_threat));
    assert!(!mode_decision.matches(&high_threat));
}

#[test]
fn test_decision_maker() {
    let camera = PayloadType::SurveillanceCamera {
        resolution_mpx: 20,
        zoom_level: 10,
        thermal_capable: true,
    };
    let payload = PayloadManager::new(Some(camera));

    let high_threat = Situation {
        threat_level: ThreatLevel::High,
    };
    let high_decision = DecisionMaker::make(&high_threat, &payload);
    match high_decision {
        Decision::ChangeAltitude(_) => (),
        _ => panic!("Expected ChangeAltitude decision for high threat"),
    }

    let medium_threat = Situation {
        threat_level: ThreatLevel::Medium,
    };
    let medium_decision = DecisionMaker::make(&medium_threat, &payload);
    match medium_decision {
        Decision::SwitchPayloadMode => (),
        _ => panic!("Expected SwitchPayloadMode decision for medium threat"),
    }
}

#[test]
fn test_ooda_cycle_execution() {
    let link_type = LinkType::MAVLink {
        version: 2,
        heartbeat_interval_ms: 500,
    };

    let mut comms = CommunicationHub::new(link_type.clone(), false);

    let camera = PayloadType::SurveillanceCamera {
        resolution_mpx: 20,
        zoom_level: 10,
        thermal_capable: true,
    };
    let mut payload = PayloadManager::new(Some(camera));
    let mut flight_controller = FlightController::new();
    let mut ooda = OodaLoop::new();

    // Three radar contacts trigger a high threat.
    comms.radar_contacts = vec![
        RadarContact {
            distance_mm: 1_000_000,
            bearing_mdeg: 45_000,
            relative_speed_mm_s: 20_000,
            via_link: link_type.clone(),
        },
        RadarContact {
            distance_mm: 800_000,
            bearing_mdeg: 90_000,
            relative_speed_mm_s: 15_000,
            via_link: link_type.clone(),
        },
        RadarContact {
            distance_mm: 1_200_000,
            bearing_mdeg: 180_000,
            relative_speed_mm_s: 25_000,
            via_link: link_type.clone(),
        },
    ];

    let mut clock = VirtualClock::new(1);
    let duration = ooda.execute_cycle(&mut comms, &mut payload, &mut flight_controller, &mut clock);

    assert!(duration > 0);
    assert!(ooda.decision_cache.is_some());
    match &ooda.decision_cache {
        Some(Decision::ChangeAltitude(_)) => (),
        _ => panic!("Expected ChangeAltitude decision for high threat"),
    }
}

#[test]
fn test_predictive_override_only_when_calm() {
    // Prediction prepares ahead only while the current threat is low.
    let mut ooda = OodaLoop::new();
    let payload = PayloadManager::new(None);

    let high = Situation {
        threat_level: ThreatLevel::High,
    };
    let d = ooda.decide_with_prediction(&high, &payload, "urban_canyon");
    assert_eq!(d, Decision::ChangeAltitude(100));

    let mut ooda2 = OodaLoop::new();
    let low = Situation {
        threat_level: ThreatLevel::Low,
    };
    let d2 = ooda2.decide_with_prediction(&low, &payload, "urban_canyon");
    assert_eq!(d2, Decision::PrepareMeshNetworking);

    let mut ooda3 = OodaLoop::new();
    let d3 = ooda3.decide_with_prediction(&low, &payload, "heavy_rain");
    assert_eq!(d3, Decision::EnhanceCommsReliability);

    let mut ooda4 = OodaLoop::new();
    let d4 = ooda4.decide_with_prediction(&low, &payload, "fog");
    assert_eq!(d4, Decision::EnhanceCommsReliability);

    let mut ooda5 = OodaLoop::new();
    let d5 = ooda5.decide_with_prediction(&low, &payload, "clear");
    assert_eq!(d5, Decision::SwitchPayloadMode);
}

#[test]
fn test_cached_decision_reused() {
    let mut ooda = OodaLoop::new();
    let payload = PayloadManager::new(None);
    let low = Situation {
        threat_level: ThreatLevel::Low,
    };

    let first = ooda.decide_with_prediction(&low, &payload, "urban_canyon");
    assert_eq!(first, Decision::PrepareMeshNetworking);

    // The cached preparation stays compatible with a low threat, so a
    // changed prediction does not replace it.
    let second = ooda.decide_with_prediction(&low, &payload, "clear");
    assert_eq!(second, Decision::PrepareMeshNetworking);
}
