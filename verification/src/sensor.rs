//! Sensor snapshots and the threat assessment derived from them.
//!
//! Accelerations are millimeters per second squared, angular rates are
//! milliradians per second, positions are microdegrees and centimeters.

use vstd::prelude::*;
use crate::comms::RadarContact;

verus! {

/// A three-axis integer vector.
#[derive(Debug, Clone, Copy, PartialEq, Eq, Structural)]
pub struct Vec3i {
    pub x: i32,
    pub y: i32,
    pub z: i32,
}

/// An inertial reading.
#[derive(Debug, Clone, Copy, PartialEq, Eq, Structural)]
pub struct IMUReading {
    /// Acceleration per axis, in millimeters per second squared.
    pub accel_mm_s2: Vec3i,
    /// Angular rate per axis, in milliradians per second.
    pub gyro_mrad_s: Vec3i,
    pub timestamp: u64,
}

/// A satellite fix.
#[derive(Debug, Clone, Copy, PartialEq, Eq, Structural)]
pub struct GPSPosition {
    pub latitude_udeg: i64,
    pub longitude_udeg: i64,
    pub altitude_cm: i64,
    pub accuracy_mm: u32,
}

/// One observation round: inertial data, an optional fix, an optional
/// range reading, the live radar contacts, how many operators spoke
/// recently, and the payload's status.
#[derive(Debug, Clone)]
pub struct SensorData {
    pub imu: IMUReading,
    pub gps: Option<GPSPosition>,
    pub lidar_range_cm: Option<u32>,
    pub radar_contacts: Vec<RadarContact>,
    pub operator_messages: usize,
    pub payload_status: PayloadStatus,
}

/// The payload's reported draw and operational flag.
#[derive(Debug, Clone, Copy, PartialEq, Eq, Structural)]
pub struct PayloadStatus {
    pub power_mw: u64,
    pub operational: bool,
}

/// Assessed danger of the situation.
#[derive(Debug, Clone, Copy, PartialEq, Eq, Structural)]
pub enum ThreatLevel {
    Low,
    Medium,
    High,
}

/// The assessment the orientation step produces.
#[derive(Debug, Clone, Copy, PartialEq, Eq, Structural)]
pub struct Situation {
    pub threat_level: ThreatLevel,
}

/// The threat rule: more than two radar contacts is high threat, any
/// recent operator message is medium, anything else is low.
pub open spec fn spec_threat_level(contact_count: int, operator_messages: int) -> ThreatLevel {
    if contact_count > 2 {
        ThreatLevel::High
    } else if operator_messages > 0 {
        ThreatLevel::Medium
    } else {
        ThreatLevel::Low
    }
}

/// The sensor-fusion collaborator that turns a snapshot into a situation.
#[derive(Debug, Clone, Copy, PartialEq, Eq, Structural)]
pub struct SensorFusion {}

impl Default for SensorFusion {
    /// The stateless analyzer.
    fn default() -> (r: SensorFusion) {
        SensorFusion {  }
    }
}

impl SensorFusion {
    /// Classifies the snapshot's threat level by the threat rule.
    pub fn analyze(&mut self, data: &SensorData) -> (r: Situation)
        ensures
            r.threat_level == spec_threat_level(
                data.radar_contacts@.len() as int,
                data.operator_messages as int,
            ),
    {
        Situation {
            threat_level: if data.radar_contacts.len() > 2 {
                ThreatLevel::High
            } else if data.operator_messages > 0 {
                ThreatLevel::Medium
            } else {
                ThreatLevel::Low
            },
        }
    }
}

} // verus!
