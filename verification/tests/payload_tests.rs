//! Tests of the payload manager.

use uav_ooda::payload::{PayloadManager, PayloadType};
use uav_ooda::sensor::{Situation, ThreatLevel};

fn camera() -> PayloadType {
    PayloadType::SurveillanceCamera {
        resolution_mpx: 20,
        zoom_level: 10,
        thermal_capable: true,
    }
}

fn lidar() -> PayloadType {
    PayloadType::LidarScanner {
        range_m: 1000,
        point_cloud_density: 50000,
    }
}

#[test]
fn test_payload_manager_creation() {
    let payload = PayloadManager::new(None);

    assert!(payload.current_payload.is_none());
    assert_eq!(payload.power_consumption_mw, 0);
    assert_eq!(payload.operational, false);
}

#[test]
fn test_payload_manager_with_camera() {
    let payload = PayloadManager::new(Some(camera()));
    assert!(payload.current_payload.is_some());
    assert_eq!(payload.power_consumption_mw, 0);
    assert_eq!(payload.operational, false);
}

#[test]
fn payload_tests_test_payload_activation() {
    let mut payload = PayloadManager::new(Some(camera()));
    payload.activate();

    assert_eq!(payload.operational, true);
    assert_eq!(payload.power_consumption_mw, 45_500);
}

#[test]
fn integration_test_test_payload_activation() {
    let mut payload = PayloadManager::new(Some(PayloadType::LidarScanner {
        range_m: 200,
        point_cloud_density: 1000,
    }));
    payload.activate();
    let (power, active) = payload.get_status();
    assert!(active);
    assert_eq!(power, 120_000);
}

#[test]
fn test_payload_toggle() {
    let mut payload = PayloadManager::new(Some(lidar()));

    assert_eq!(payload.operational, false);

    payload.toggle_operational();
    assert_eq!(payload.operational, true);
    assert!(payload.power_consumption_mw > 0);

    payload.toggle_operational();
    assert_eq!(payload.operational, false);
    assert_eq!(payload.power_consumption_mw, 0);
}

#[test]
fn test_payload_standby() {
    let mut payload = PayloadManager::new(Some(lidar()));
    payload.activate();

    let initial_power = payload.power_consumption_mw;
    payload.standby();

    assert_eq!(payload.operational, false);
    assert_eq!(payload.power_consumption_mw, initial_power * 3 / 10);
}

#[test]
fn test_payload_ooda_configuration() {
    let mut payload = PayloadManager::new(Some(camera()));

    let high_threat = Situation {
        threat_level: ThreatLevel::High,
    };
    payload.ooda_configure(&high_threat);
    assert_eq!(payload.operational, true);
    assert!(payload.power_consumption_mw > 45_500);

    let mut payload = PayloadManager::new(Some(camera()));
    let medium_threat = Situation {
        threat_level: ThreatLevel::Medium,
    };
    payload.ooda_configure(&medium_threat);
    assert_eq!(payload.operational, true);
    assert_eq!(payload.power_consumption_mw, 45_500);

    let mut payload = PayloadManager::new(Some(camera()));
    payload.activate();
    payload.power_consumption_mw = 60_000;

    let low_threat = Situation {
        threat_level: ThreatLevel::Low,
    };
    payload.ooda_configure(&low_threat);
    assert_eq!(payload.operational, false);
    assert_eq!(payload.power_consumption_mw, 18_000);
}
