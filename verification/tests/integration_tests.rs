//! End-to-end tests: the control cycle over the different communication
//! architectures and the assembled system.

use uav_ooda::clock::VirtualClock;
use uav_ooda::comms::{CommsPriority, CommunicationHub, LinkType, RadarContact};
use uav_ooda::models::{MissionType, UavSystems};
use uav_ooda::ooda::OodaLoop;
use uav_ooda::payload::PayloadType;

fn contact(distance_mm: u64, bearing_mdeg: i32, speed_mm_s: i32, link: LinkType) -> RadarContact {
    RadarContact {
        distance_mm,
        bearing_mdeg,
        relative_speed_mm_s: speed_mm_s,
        via_link: link,
    }
}

#[test]
fn test_ooda_with_tta_communication() {
    let mut uav_system = UavSystems::new(MissionType::Surveillance);

    let tta_link = LinkType::TimeTriggered {
        cycle_time_us: 5000,
        slot_count: 4,
    };
    uav_system.comms = CommunicationHub::new(tta_link.clone(), false);

    let mut ooda_loop = OodaLoop::new();

    for i in 0..3 {
        uav_system.comms.radar_contacts.push(contact(
            1_000_000 + (i as u64) * 200_000,
            45_000 * (i as i32),
            20_000,
            tta_link.clone(),
        ));
    }

    let mut clock = VirtualClock::new(1);
    let cycle_time = ooda_loop.execute_cycle(
        &mut uav_system.comms,
        &mut uav_system.payload,
        &mut uav_system.flight_controller,
        &mut clock,
    );

    // The virtual clock only advances by the injected delays, so the
    // cycle is far inside 150 milliseconds.
    assert!(cycle_time < 150_000_000);

    let priority = uav_system.comms.process_ooda_cycle(cycle_time);
    assert_eq!(priority, CommsPriority::High);

    match &uav_system.comms.primary_link.link_type {
        LinkType::DDS { .. } => (),
        _ => panic!("Should have switched to DDS for fast OODA cycle"),
    }
}

#[test]
fn test_ooda_with_dds_communication() {
    let mut uav_system = UavSystems::new(MissionType::Surveillance);

    let dds_link = LinkType::DDS {
        reliability_qos: "RELIABLE".into(),
        deadline_ms: 10,
        history_depth: 5,
    };
    uav_system.comms = CommunicationHub::new(dds_link.clone(), false);

    uav_system
        .comms
        .add_operator("Commander".to_string(), 5, vec![dds_link.clone()], 0);

    let mut ooda_loop = OodaLoop::new();
    let mut clock = VirtualClock::new(1);
    let cycle_time = ooda_loop.execute_cycle(
        &mut uav_system.comms,
        &mut uav_system.payload,
        &mut uav_system.flight_controller,
        &mut clock,
    );

    println!("Medium threat cycle time: {:?}", cycle_time);

    let priority = uav_system.comms.process_ooda_cycle(cycle_time);
    match priority {
        CommsPriority::Medium => match &uav_system.comms.primary_link.link_type {
            LinkType::TimeTriggered { .. } => (),
            _ => panic!("Should have switched to TimeTriggered for medium priority"),
        },
        CommsPriority::High => match &uav_system.comms.primary_link.link_type {
            LinkType::DDS { .. } => (),
            _ => panic!("Should have kept DDS for high priority"),
        },
        CommsPriority::Low => match &uav_system.comms.primary_link.link_type {
            LinkType::LoRa { .. } => (),
            _ => panic!("Should have switched to LoRa for low priority"),
        },
    }
}

#[test]
fn test_ooda_with_fog_computing() {
    let mut uav_system = UavSystems::new(MissionType::Surveillance);

    let fog_link = LinkType::FogComputing {
        edge_node_id: "edge1".into(),
        offload_threshold_milli: 700,
    };
    uav_system.comms = CommunicationHub::new(fog_link.clone(), false);

    let mut ooda_loop = OodaLoop::new();
    let mut clock = VirtualClock::new(1);
    let cycle_time = ooda_loop.execute_cycle(
        &mut uav_system.comms,
        &mut uav_system.payload,
        &mut uav_system.flight_controller,
        &mut clock,
    );

    println!("Low threat cycle time: {:?}", cycle_time);

    let priority = uav_system.comms.process_ooda_cycle(cycle_time);
    match priority {
        CommsPriority::Low => match &uav_system.comms.primary_link.link_type {
            LinkType::LoRa { .. } => (),
            _ => panic!("Should have switched to LoRa for low priority"),
        },
        _ => {
            println!("Note: Expected Low priority but got {:?}", priority);
        }
    }
}

#[test]
fn test_communication_architecture_transitions() {
    let mut uav_system = UavSystems::new(MissionType::Surveillance);

    uav_system.comms.primary_link.link_type = LinkType::LoRa {
        frequency_mhz: 915,
        spreading_factor: 10,
    };

    let mut ooda_loop = OodaLoop::new();
    let initial_link_type = uav_system.comms.primary_link.link_type.clone();
    println!("Initial link type: {:?}", initial_link_type);

    for i in 0..3 {
        uav_system.comms.radar_contacts.push(contact(
            800_000 + (i as u64) * 100_000,
            30_000 * (i as i32),
            25_000,
            initial_link_type.clone(),
        ));
    }

    let mut clock = VirtualClock::new(1);
    let threat_cycle_time = ooda_loop.execute_cycle(
        &mut uav_system.comms,
        &mut uav_system.payload,
        &mut uav_system.flight_controller,
        &mut clock,
    );
    println!("Threat cycle time: {:?}", threat_cycle_time);

    uav_system.comms.adjust_links(CommsPriority::High);
    match &uav_system.comms.primary_link.link_type {
        LinkType::DDS { .. } => println!("Successfully transitioned to DDS"),
        other => panic!("Expected DDS for high threats, got: {:?}", other),
    }
    let high_priority_link = uav_system.comms.primary_link.link_type.clone();

    uav_system.comms.adjust_links(CommsPriority::Medium);
    match &uav_system.comms.primary_link.link_type {
        LinkType::TimeTriggered { .. } => println!("Successfully transitioned to TimeTriggered"),
        other => panic!("Expected TimeTriggered for medium priority, got: {:?}", other),
    }
    let medium_priority_link = uav_system.comms.primary_link.link_type.clone();

    assert_ne!(
        initial_link_type, high_priority_link,
        "Initial link should differ from high priority link"
    );
    assert_ne!(
        high_priority_link, medium_priority_link,
        "High priority link should differ from medium priority link"
    );
    assert_ne!(
        initial_link_type, medium_priority_link,
        "Initial link should differ from medium priority link"
    );
}

#[test]
fn test_full_system_integration() {
    let mut constraints = uav_ooda::models::UavConstraints::default();
    constraints.mission = MissionType::Surveillance;
    constraints.requires_ai = true;

    let architecture = uav_ooda::engine::generate_architecture(&constraints);

    let mut uav_system = UavSystems::new(constraints.mission);

    // Configure the flight controller from the selected architecture.
    uav_system.flight_controller = match architecture.flight_control {
        uav_ooda::models::FlightControllerType::PX4(params) => {
            uav_ooda::flight::FlightController::from_params((
                params.roll.p_milli,
                params.roll.i_milli,
                params.roll.d_milli,
            ))
        }
        uav_ooda::models::FlightControllerType::ArduPilot(params) => {
            uav_ooda::flight::FlightController::from_params((
                params.pitch.p_milli,
                params.pitch.i_milli,
                params.pitch.d_milli,
            ))
        }
        uav_ooda::models::FlightControllerType::Custom(params) => {
            uav_ooda::flight::FlightController::from_params((
                params.yaw.p_milli,
                params.yaw.i_milli,
                params.yaw.d_milli,
            ))
        }
        uav_ooda::models::FlightControllerType::Betaflight => {
            uav_ooda::flight::FlightController::new()
        }
    };

    let mut ooda_loop = OodaLoop::new();
    uav_system.scan_surroundings();

    let mut clock = VirtualClock::new(1);
    let cycle_time = ooda_loop.execute_cycle(
        &mut uav_system.comms,
        &mut uav_system.payload,
        &mut uav_system.flight_controller,
        &mut clock,
    );

    assert!(cycle_time > 0);

    let priority = uav_system.comms.process_ooda_cycle(cycle_time);
    assert!(
        matches!(priority, CommsPriority::High)
            || matches!(priority, CommsPriority::Medium)
            || matches!(priority, CommsPriority::Low)
    );
}

#[test]
fn test_surveillance_mission_profile() {
    let mut uav = UavSystems::new(MissionType::Surveillance);

    match &uav.payload.current_payload {
        Some(PayloadType::SurveillanceCamera { .. }) => (),
        _ => panic!("Expected surveillance camera for surveillance mission"),
    }

    uav.comms.add_operator(
        "Commander".to_string(),
        5,
        vec![LinkType::MAVLink {
            version: 2,
            heartbeat_interval_ms: 500,
        }],
        0,
    );

    uav.register_navigation_beacon("NAV-1", 34_500_000, -118_200_000);

    let mut ooda = OodaLoop::new();
    let mut clock = VirtualClock::new(1);
    ooda.execute_cycle(
        &mut uav.comms,
        &mut uav.payload,
        &mut uav.flight_controller,
        &mut clock,
    );

    // A cycle with an operator heard produces a medium threat, which
    // activates the payload.
    assert_eq!(uav.payload.get_status().1, true);
}

#[test]
fn test_radar_tracking() {
    let mavlink = LinkType::MAVLink {
        version: 2,
        heartbeat_interval_ms: 1000,
    };

    let mut comms = CommunicationHub::new(mavlink.clone(), false);

    let radar_contact = contact(500_000, 90_000, 0, mavlink);

    comms.add_operator("radar_operator".to_string(), 4, vec![], 0);

    assert_eq!(comms.operators.len(), 1);
    assert_eq!(comms.operators[0].id, "radar_operator");

    assert_eq!(radar_contact.bearing_mdeg, 90_000);
    assert_eq!(radar_contact.distance_mm, 500_000);
}

#[test]
fn test_cycle_with_quadcopter_layout() {
    // A layout-aware cycle: the decision and actuation delays come from
    // real paths through the reference airframe.
    let layout = uav_ooda::layouts::create_quadcopter_layout();
    let mut ooda = OodaLoop::with_physical_layout(layout);
    let mut uav = UavSystems::new(MissionType::Surveillance);

    let mut clock = VirtualClock::new(1);
    let cycle = ooda.execute_cycle(
        &mut uav.comms,
        &mut uav.payload,
        &mut uav.flight_controller,
        &mut clock,
    );
    assert!(cycle > 0);
    assert!(ooda.decision_cache.is_some());
    // The hub picked up the shared layout.
    assert!(uav.comms.physical_topology.is_some());
}
