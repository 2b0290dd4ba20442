//! Tests of the communication hub, the time-triggered cycle, the
//! quality-of-service profiles and the fog manager.

use uav_ooda::comms::{CommsPriority, CommunicationHub, LinkType, SecureChannel};
use uav_ooda::dds::{DDSQoSProfile, ReliabilityQoS};
use uav_ooda::fog::{ComputeTask, FogComputingManager, TaskPriority};
use uav_ooda::layouts::create_quadcopter_layout;
use uav_ooda::topology::ComponentId;
use uav_ooda::tta::TTACycle;

#[test]
fn test_tta_cycle() {
    let mut tta = TTACycle::new(10000, 4);

    assert_eq!(tta.slots.len(), 4);
    assert_eq!(tta.cycle_time_us, 10000);
    assert_eq!(tta.current_slot, 0);

    tta.start_cycle(0);
    assert!(tta.last_cycle_start.is_some());

    assert!(tta.advance_slot());
    assert_eq!(tta.current_slot, 1);

    let slot = tta.get_current_slot().unwrap();
    assert_eq!(slot.id, 1);
    assert_eq!(slot.duration_us, 2500);

    assert!(tta.advance_slot());
    assert!(tta.advance_slot());
    assert_eq!(tta.current_slot, 3);

    assert!(!tta.advance_slot());
}

#[test]
fn test_tta_time_until_next_slot() {
    let mut tta = TTACycle::new(10000, 4);
    tta.start_cycle(1000);
    // One and a half milliseconds into a 2.5 millisecond slot.
    assert_eq!(tta.time_until_next_slot(2500), 1000);
    // Past the slot's end.
    assert_eq!(tta.time_until_next_slot(9999), 0);
    // Before a cycle starts, no wait is reported.
    let idle = TTACycle::new(10000, 4);
    assert_eq!(idle.time_until_next_slot(500), 0);
}

#[test]
fn test_tta_slot_node_labels() {
    let tta = TTACycle::new(10000, 4);
    assert_eq!(tta.slots[0].allocated_node, "node_0");
    assert_eq!(tta.slots[3].allocated_node, "node_3");
    let wide = TTACycle::new(240_000, 120);
    assert_eq!(wide.slots[115].allocated_node, "node_115");
}

#[test]
fn test_dds_qos_profiles() {
    let default_profile = DDSQoSProfile::default();
    assert_eq!(default_profile.reliability, ReliabilityQoS::Reliable);

    let critical = DDSQoSProfile::critical_control();
    assert_eq!(critical.deadline_ms, 5);

    let telemetry = DDSQoSProfile::telemetry();
    assert_eq!(telemetry.reliability, ReliabilityQoS::BestEffort);
}

#[test]
fn test_fog_computing() {
    let mut fog = FogComputingManager::new(700);

    fog.add_edge_node("edge1".to_string(), 900, 1024, 5_000);
    fog.add_edge_node("edge2".to_string(), 600, 2048, 15_000);

    assert_eq!(fog.edge_nodes.len(), 2);

    fog.queue_task(ComputeTask {
        id: "task1".to_string(),
        cpu_load_milli: 300,
        memory_mb: 512,
        deadline_ms: 100,
        priority: TaskPriority::High,
    });

    fog.queue_task(ComputeTask {
        id: "task2".to_string(),
        cpu_load_milli: 400,
        memory_mb: 256,
        deadline_ms: 200,
        priority: TaskPriority::Medium,
    });

    let assigned = fog.distribute_tasks();
    assert_eq!(assigned, 2);
    assert_eq!(fog.task_queue.len(), 0);
}

#[test]
fn test_communication_hub_creation() {
    let link_type = LinkType::MAVLink {
        version: 2,
        heartbeat_interval_ms: 500,
    };

    let hub = CommunicationHub::new(link_type.clone(), true);

    assert_eq!(hub.primary_link.link_type, link_type);
    assert_eq!(hub.primary_link.encryption, true);
    assert!(hub.backup_links.is_empty());
    assert!(hub.operators.is_empty());
    assert!(hub.radar_contacts.is_empty());
    assert!(hub.secure_channel.is_some());

    let tta_link = LinkType::TimeTriggered {
        cycle_time_us: 10000,
        slot_count: 8,
    };

    let tta_hub = CommunicationHub::new(tta_link.clone(), false);
    assert!(tta_hub.tta_cycle.is_some());
    assert_eq!(tta_hub.tta_cycle.unwrap().cycle_time_us, 10000);
}

#[test]
fn test_operator_addition() {
    let link_type = LinkType::MAVLink {
        version: 2,
        heartbeat_interval_ms: 500,
    };

    let mut hub = CommunicationHub::new(link_type.clone(), false);
    hub.add_operator("Operator1".to_string(), 5, vec![link_type.clone()], 0);

    assert_eq!(hub.operators.len(), 1);
    assert_eq!(hub.operators[0].id, "Operator1");
    assert_eq!(hub.operators[0].clearance_level, 5);
    assert_eq!(hub.operators[0].assigned_links.len(), 1);
    assert_eq!(hub.operators[0].assigned_links[0], link_type);
    assert!(hub.operators[0].last_heartbeat.is_some());
}

#[test]
fn test_process_ooda_cycle() {
    let link_type = LinkType::MAVLink {
        version: 2,
        heartbeat_interval_ms: 500,
    };

    let mut hub = CommunicationHub::new(link_type, false);

    // 50 milliseconds: a fast cycle.
    let fast_result = hub.process_ooda_cycle(50_000_000);
    assert_eq!(fast_result, CommsPriority::High);
    match &hub.primary_link.link_type {
        LinkType::DDS { .. } => (),
        _ => panic!("Link type should have been changed to DDS"),
    }

    // 200 milliseconds: a medium cycle.
    let medium_result = hub.process_ooda_cycle(200_000_000);
    assert_eq!(medium_result, CommsPriority::Medium);
    match &hub.primary_link.link_type {
        LinkType::TimeTriggered { .. } => (),
        _ => panic!("Link type should have been changed to TimeTriggered"),
    }

    // 600 milliseconds: a slow cycle.
    let slow_result = hub.process_ooda_cycle(600_000_000);
    assert_eq!(slow_result, CommsPriority::Low);
    match &hub.primary_link.link_type {
        LinkType::LoRa { .. } => (),
        _ => panic!("Link type should have been changed to LoRa"),
    }
}

#[test]
fn test_secure_channel_encryption() {
    let secure_channel = SecureChannel::new("AES256-SHA256");

    let data = b"Test data for encryption";
    let encrypted = secure_channel.encrypt(data);

    assert_eq!(encrypted.len(), data.len());
}

#[test]
fn test_direct_link_adjustment() {
    let link_type = LinkType::MAVLink {
        version: 2,
        heartbeat_interval_ms: 500,
    };
    let mut hub = CommunicationHub::new(link_type, false);

    hub.adjust_links(CommsPriority::High);
    match &hub.primary_link.link_type {
        LinkType::DDS { .. } => (),
        _ => panic!("Should have switched to DDS for high priority"),
    }

    hub.adjust_links(CommsPriority::Medium);
    match &hub.primary_link.link_type {
        LinkType::TimeTriggered { .. } => (),
        _ => panic!("Should have switched to TimeTriggered for medium priority"),
    }

    hub.adjust_links(CommsPriority::Low);
    match &hub.primary_link.link_type {
        LinkType::LoRa { .. } => (),
        _ => panic!("Should have switched to LoRa for low priority"),
    }
}

#[test]
fn test_communication_architectures_performance() {
    // Each architecture's hub switches to data distribution for a fast
    // cycle.
    let mut tta_hub = CommunicationHub::new(
        LinkType::TimeTriggered {
            cycle_time_us: 10000,
            slot_count: 8,
        },
        false,
    );
    let mut dds_hub = CommunicationHub::new(
        LinkType::DDS {
            reliability_qos: "RELIABLE".to_string(),
            deadline_ms: 5,
            history_depth: 1,
        },
        false,
    );
    let mut fog_hub = CommunicationHub::new(
        LinkType::FogComputing {
            edge_node_id: "main".to_string(),
            offload_threshold_milli: 700,
        },
        false,
    );

    let fast_cycle_ns = 50_000_000;

    let p1 = tta_hub.process_ooda_cycle(fast_cycle_ns);
    assert_eq!(p1, CommsPriority::High);
    assert!(
        matches!(tta_hub.primary_link.link_type, LinkType::DDS { .. }),
        "TTA hub should have switched to DDS for fast cycle"
    );

    let p2 = dds_hub.process_ooda_cycle(fast_cycle_ns);
    assert_eq!(p2, CommsPriority::High);
    assert!(
        matches!(dds_hub.primary_link.link_type, LinkType::DDS { .. }),
        "DDS hub should have maintained DDS for fast cycle"
    );

    let p3 = fog_hub.process_ooda_cycle(fast_cycle_ns);
    assert_eq!(p3, CommsPriority::High);
    assert!(
        matches!(fog_hub.primary_link.link_type, LinkType::DDS { .. }),
        "Fog hub should have switched to DDS for fast cycle"
    );
}

#[test]
fn test_message_without_topology_uses_link_table() {
    let mut hub = CommunicationHub::new(
        LinkType::LoRa {
            frequency_mhz: 915,
            spreading_factor: 10,
        },
        false,
    );
    let latency = hub
        .process_message(
            b"ping",
            uav_ooda::topology::ComponentId::MainProcessor,
            uav_ooda::topology::ComponentId::RadioLink,
        )
        .unwrap();
    assert_eq!(latency, 50_000_000);
}

#[test]
fn test_message_latency_over_layout() {
    let mut hub = CommunicationHub::new(
        LinkType::MAVLink {
            version: 2,
            heartbeat_interval_ms: 500,
        },
        false,
    );
    hub.set_physical_topology(create_quadcopter_layout());

    // The direct motor link: 98994 micrometers of copper at 500
    // picoseconds per centimeter.
    let latency_ps = hub
        .calculate_message_latency(
            &ComponentId::FlightController,
            &ComponentId::MotorController(0),
        )
        .unwrap();
    assert_eq!(latency_ps, 4949);

    // The same route carries a short message without loss: its
    // reliability is far above the loss threshold.
    let total_ns = hub
        .process_message(
            b"ping",
            ComponentId::FlightController,
            ComponentId::MotorController(0),
        )
        .unwrap();
    assert_eq!(total_ns, 4);
}
