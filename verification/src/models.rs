//! Architectural building blocks, mission constraints, and the assembled
//! UAV system.

use vstd::prelude::*;
use crate::comms::{CommunicationHub, LinkType, NavigationBeacon, RadarContact};
use crate::flight::FlightController;
use crate::payload::{PayloadManager, PayloadType};

verus! {

/// Estimator configuration, in thousandths.
#[derive(Debug, Clone, Copy, PartialEq, Eq, Structural)]
pub struct KalmanConfig {
    pub process_noise_milli: u32,
    pub sensor_weight_primary_milli: u32,
    pub sensor_weight_secondary_milli: u32,
}

/// Neural-network configuration for learned fusion.
#[derive(Debug, Clone, PartialEq)]
pub struct NeuralNetworkConfig {
    pub model_path: String,
    pub inference_rate: u32,
}

/// One axis's regulator gains, in thousandths.
#[derive(Debug, Clone, Copy, PartialEq, Eq, Structural)]
pub struct AxisGains {
    pub p_milli: i64,
    pub i_milli: i64,
    pub d_milli: i64,
}

/// Regulator gains per axis, in thousandths.
#[derive(Debug, Clone, Copy, PartialEq, Eq, Structural)]
pub struct PIDParams {
    pub roll: AxisGains,
    pub pitch: AxisGains,
    pub yaw: AxisGains,
}

/// How sensor streams are fused.
#[derive(Debug, Clone, PartialEq)]
pub enum DataFusion {
    KalmanFilter(KalmanConfig),
    DnnFusion(NeuralNetworkConfig),
}

/// The flight-control stack.
#[derive(Debug, Clone, PartialEq)]
pub enum FlightControllerType {
    PX4(PIDParams),
    ArduPilot(PIDParams),
    Betaflight,
    Custom(PIDParams),
}

/// The communication stack.
#[derive(Debug, Clone, Copy, PartialEq, Eq, Structural)]
pub enum CommsSystem {
    MAVLink { version: u8 },
    LoRa { frequency: u32 },
    WiFiDirect { bandwidth: u32 },
    MilitaryEncrypted { key_rotation: u32 },
}

/// The sensor complement.
#[derive(Debug, Clone, Copy, PartialEq, Eq, Structural)]
pub enum SensorSuite {
    BasicImu,
    GpsEnhanced,
    FullNavigation,
    Autonomous,
}

/// The compute platform.
#[derive(Debug, Clone, Copy, PartialEq, Eq, Structural)]
pub enum Processor {
    XilinxZynqUltraScale,
    NvidiaJetsonAGXOrin,
    QualcommRB5,
    IntelCorei7,
    RaspberryPiCM4,
}

/// A complete architectural selection.
#[derive(Debug, Clone, PartialEq)]
pub struct UAVArchitecture {
    pub processor: Processor,
    pub data_fusion: DataFusion,
    pub flight_control: FlightControllerType,
    pub sensors: SensorSuite,
    pub comms: CommsSystem,
}

/// The mission profile.
#[derive(Debug, Clone, Copy, PartialEq, Eq, Structural)]
pub enum MissionType {
    Surveillance,
    Strike,
    Logistics,
}

/// Size, weight and power limits. Weight is grams, power milliwatts,
/// size millimeters, compute thresholds thousandths, cost cents.
#[derive(Debug, Clone, Copy, PartialEq, Eq, Structural)]
pub struct SWaPConstraints {
    pub max_weight_g: u64,
    pub max_power_mw: u64,
    pub max_width_mm: u32,
    pub max_length_mm: u32,
    pub max_height_mm: u32,
    pub min_compute_threshold_milli: Option<u32>,
    pub max_cost_cents: Option<u64>,
}

/// What a mission demands of the airframe.
#[derive(Debug, Clone, Copy, PartialEq, Eq, Structural)]
pub struct UavConstraints {
    pub mission: MissionType,
    pub swap: SWaPConstraints,
    pub autonomy_level: u8,
    pub requires_ai: bool,
    pub secure_comms: bool,
}

impl Default for UavConstraints {
    /// A ten kilogram, hundred watt surveillance airframe at autonomy
    /// level three, with no AI or secure-communication demands.
    fn default() -> (r: UavConstraints)
        ensures
            r.mission == MissionType::Surveillance,
            r.swap.max_weight_g == 10_000,
            r.swap.max_power_mw == 100_000,
            r.swap.max_width_mm == 1000,
            r.swap.max_length_mm == 1000,
            r.swap.max_height_mm == 500,
            r.swap.min_compute_threshold_milli == Some(1000u32),
            r.swap.max_cost_cents == Some(500_000u64),
            r.autonomy_level == 3,
            !r.requires_ai,
            !r.secure_comms,
    {
        UavConstraints {
            mission: MissionType::Surveillance,
            swap: SWaPConstraints {
                max_weight_g: 10_000,
                max_power_mw: 100_000,
                max_width_mm: 1000,
                max_length_mm: 1000,
                max_height_mm: 500,
                min_compute_threshold_milli: Some(1000),
                max_cost_cents: Some(500_000),
            },
            autonomy_level: 3,
            requires_ai: false,
            secure_comms: false,
        }
    }
}

/// The assembled UAV: payload bay, communication hub, and flight
/// controller.
#[derive(Debug, Clone)]
pub struct UavSystems {
    pub payload: PayloadManager,
    pub comms: CommunicationHub,
    pub flight_controller: FlightController,
}

impl UavSystems {
    /// A system outfitted for the mission: a surveillance camera, a cargo
    /// container, or no payload for a strike profile, over a secure
    /// MAVLink hub and a stock flight controller.
    pub fn new(mission_type: MissionType) -> (r: UavSystems)
        ensures
            r.comms.wf(),
            mission_type == MissionType::Surveillance ==> (r.payload.current_payload matches Some(
                PayloadType::SurveillanceCamera { resolution_mpx, zoom_level, thermal_capable },
            ) && resolution_mpx == 20 && zoom_level == 10 && thermal_capable),
            mission_type == MissionType::Strike ==> r.payload.current_payload is None,
            mission_type == MissionType::Logistics ==> (r.payload.current_payload matches Some(
                PayloadType::CargoContainer { max_weight_kg, secure_locking },
            ) && max_weight_kg == 50 && secure_locking),
            !r.payload.operational,
            r.payload.power_consumption_mw == 0,
            (r.comms.primary_link.link_type matches LinkType::MAVLink {
                version,
                heartbeat_interval_ms,
            } && version == 2 && heartbeat_interval_ms == 500),
            r.comms.primary_link.encryption,
            r.comms.secure_channel is Some,
            r.comms.radar_contacts@.len() == 0,
            r.flight_controller.mode == crate::flight::FlightMode::Manual,
    {
        let payload = match mission_type {
            MissionType::Surveillance => PayloadManager::new(
                Some(
                    PayloadType::SurveillanceCamera {
                        resolution_mpx: 20,
                        zoom_level: 10,
                        thermal_capable: true,
                    },
                ),
            ),
            MissionType::Strike => PayloadManager::new(None),
            MissionType::Logistics => PayloadManager::new(
                Some(PayloadType::CargoContainer { max_weight_kg: 50, secure_locking: true }),
            ),
        };
        UavSystems {
            payload,
            comms: CommunicationHub::new(
                LinkType::MAVLink { version: 2, heartbeat_interval_ms: 500 },
                true,
            ),
            flight_controller: FlightController::new(),
        }
    }

    /// Simulates one radar sweep: a single inbound contact is recorded on
    /// the hub and returned.
    pub fn scan_surroundings(&mut self) -> (r: Vec<RadarContact>)
        ensures
            r@.len() == 1,
            final(self).comms.radar_contacts@.len() == 1,
            final(self).comms.radar_contacts@[0].distance_mm == 1_000_000,
            final(self).comms.radar_contacts@[0].bearing_mdeg == 45_000,
            final(self).comms.radar_contacts@[0].relative_speed_mm_s == 20_000,
            final(self).payload == old(self).payload,
            final(self).flight_controller == old(self).flight_controller,
    {
        let contact = RadarContact {
            distance_mm: 1_000_000,
            bearing_mdeg: 45_000,
            relative_speed_mm_s: 20_000,
            via_link: LinkType::MAVLink { version: 2, heartbeat_interval_ms: 500 },
        };
        let mut contacts: Vec<RadarContact> = Vec::new();
        contacts.push(crate::comms::clone_contact(&contact));
        let mut stored: Vec<RadarContact> = Vec::new();
        stored.push(contact);
        self.comms.radar_contacts = stored;
        contacts
    }

    /// Registers a navigation beacon heard over the long-range link.
    pub fn register_navigation_beacon(
        &mut self,
        id: &str,
        latitude_udeg: i64,
        longitude_udeg: i64,
    )
        ensures
            final(self).comms.beacon_log@.len() == old(self).comms.beacon_log@.len() + 1,
            final(self).comms.beacon_log@.last().id@ == id@,
            final(self).payload == old(self).payload,
            final(self).flight_controller == old(self).flight_controller,
    {
        self.comms.log_beacon(
            NavigationBeacon {
                id: id.to_owned(),
                latitude_udeg,
                longitude_udeg,
                signal_strength_milli: 850,
                link_used: LinkType::LoRa { frequency_mhz: 915, spreading_factor: 10 },
            },
        );
    }
}

} // verus!
