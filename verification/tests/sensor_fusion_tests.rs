//! Tests of sensor snapshots and the threat assessment.

use uav_ooda::comms::{LinkType, RadarContact};
use uav_ooda::sensor::{
    IMUReading, PayloadStatus, SensorData, SensorFusion, ThreatLevel, Vec3i,
};

fn dummy_imu() -> IMUReading {
    IMUReading {
        accel_mm_s2: Vec3i { x: 0, y: 0, z: 9810 },
        gyro_mrad_s: Vec3i { x: 0, y: 0, z: 0 },
        timestamp: 1000,
    }
}

fn snapshot(contacts: Vec<RadarContact>, operator_messages: usize) -> SensorData {
    SensorData {
        imu: dummy_imu(),
        gps: None,
        lidar_range_cm: None,
        radar_contacts: contacts,
        operator_messages,
        payload_status: PayloadStatus {
            power_mw: 0,
            operational: false,
        },
    }
}

#[test]
fn test_imu_reading_creation() {
    let imu = dummy_imu();
    assert_eq!(imu.accel_mm_s2.z, 9810);
    assert_eq!(imu.gyro_mrad_s.x, 0);
    assert_eq!(imu.timestamp, 1000);
}

#[test]
fn test_sensor_fusion_analyze() {
    let mut fusion = SensorFusion::default();

    let situation1 = fusion.analyze(&snapshot(vec![], 0));
    assert_eq!(situation1.threat_level, ThreatLevel::Low);

    let situation2 = fusion.analyze(&snapshot(vec![], 2));
    assert_eq!(situation2.threat_level, ThreatLevel::Medium);

    let link_type = LinkType::MAVLink {
        version: 2,
        heartbeat_interval_ms: 500,
    };
    let contacts = vec![
        RadarContact {
            distance_mm: 500_000,
            bearing_mdeg: 45_000,
            relative_speed_mm_s: 20_000,
            via_link: link_type.clone(),
        },
        RadarContact {
            distance_mm: 800_000,
            bearing_mdeg: 90_000,
            relative_speed_mm_s: 15_000,
            via_link: link_type.clone(),
        },
        RadarContact {
            distance_mm: 1_200_000,
            bearing_mdeg: 180_000,
            relative_speed_mm_s: 25_000,
            via_link: link_type,
        },
    ];
    let situation3 = fusion.analyze(&snapshot(contacts, 0));
    assert_eq!(situation3.threat_level, ThreatLevel::High);
}
