//! Tests of the physical topology: distances, link derivation, path
//! latency and reliability, shortest paths, and interference scores.

use uav_ooda::interference::EmcProperties;
use uav_ooda::layouts::{create_emc_profile, create_quadcopter_layout};
use uav_ooda::topology::{
    Component, ComponentId, ConnectionType, PhysicalTopology, Position, TopologyError,
    SCALE_PPT,
};

fn place(id: ComponentId, x_um: i64, y_um: i64, z_um: i64) -> Component {
    Component {
        id,
        position: Position { x_um, y_um, z_um },
        weight_mg: 10_000,
        power_consumption_mw: 100,
        heat_generation_mc: 1_000,
    }
}

fn trace() -> ConnectionType {
    ConnectionType::PcbTrace {
        width_mils: 20,
        layers: 1,
    }
}

#[test]
fn test_distance_is_euclidean() {
    let a = Position {
        x_um: 0,
        y_um: 0,
        z_um: 0,
    };
    let b = Position {
        x_um: 30_000,
        y_um: 40_000,
        z_um: 0,
    };
    assert_eq!(a.distance_to(&b), 50_000);
    assert_eq!(b.distance_to(&a), 50_000);
    // A non-square distance rounds down.
    let c = Position {
        x_um: 10_000,
        y_um: 10_000,
        z_um: 0,
    };
    assert_eq!(a.distance_to(&c), 14_142);
}

#[test]
fn test_connect_requires_registered_endpoints() {
    let mut t = PhysicalTopology::new();
    t.add_component(place(ComponentId::FlightController, 0, 0, 0));

    let missing = t.connect(&ComponentId::Gps, &ComponentId::FlightController, trace());
    assert_eq!(missing.unwrap_err(), TopologyError::ComponentMissing(ComponentId::Gps));

    let missing_to = t.connect(&ComponentId::FlightController, &ComponentId::Gps, trace());
    assert_eq!(
        missing_to.unwrap_err(),
        TopologyError::ComponentMissing(ComponentId::Gps)
    );

    t.add_component(place(ComponentId::Gps, 10_000, 0, 0));
    assert!(t
        .connect(&ComponentId::FlightController, &ComponentId::Gps, trace())
        .is_ok());
}

#[test]
fn test_lookup_tolerates_either_order() {
    let mut t = PhysicalTopology::new();
    t.add_component(place(ComponentId::FlightController, 0, 0, 0));
    t.add_component(place(ComponentId::Gps, 10_000, 0, 0));
    t.connect(&ComponentId::FlightController, &ComponentId::Gps, trace())
        .unwrap();

    let forward = t
        .get_path_latency(&[ComponentId::FlightController, ComponentId::Gps])
        .unwrap();
    let backward = t
        .get_path_latency(&[ComponentId::Gps, ComponentId::FlightController])
        .unwrap();
    assert_eq!(forward, backward);
    // One centimeter of a single-layer 300 ps/cm trace.
    assert_eq!(forward, 300);
}

#[test]
fn test_path_latency_additive() {
    // latency(A,B,C) equals latency(A,B) + latency(B,C).
    let mut t = PhysicalTopology::new();
    t.add_component(place(ComponentId::FlightController, 0, 0, 0));
    t.add_component(place(ComponentId::SensorHub, 20_000, 0, 0));
    t.add_component(place(ComponentId::Camera, 50_000, 0, 0));
    t.connect(&ComponentId::FlightController, &ComponentId::SensorHub, trace())
        .unwrap();
    t.connect(
        &ComponentId::SensorHub,
        &ComponentId::Camera,
        ConnectionType::Copper {
            gauge: 24,
            wires: 4,
            shielded: false,
        },
    )
    .unwrap();

    let ab = t
        .get_path_latency(&[ComponentId::FlightController, ComponentId::SensorHub])
        .unwrap();
    let bc = t
        .get_path_latency(&[ComponentId::SensorHub, ComponentId::Camera])
        .unwrap();
    let abc = t
        .get_path_latency(&[
            ComponentId::FlightController,
            ComponentId::SensorHub,
            ComponentId::Camera,
        ])
        .unwrap();
    assert_eq!(abc, ab + bc);
}

#[test]
fn test_path_latency_requires_two_components() {
    let mut t = PhysicalTopology::new();
    t.add_component(place(ComponentId::FlightController, 0, 0, 0));
    let err = t.get_path_latency(&[ComponentId::FlightController]);
    assert_eq!(err.unwrap_err(), TopologyError::PathTooShort);
}

#[test]
fn test_path_latency_reports_missing_hop() {
    let mut t = PhysicalTopology::new();
    t.add_component(place(ComponentId::FlightController, 0, 0, 0));
    t.add_component(place(ComponentId::Gps, 10_000, 0, 0));
    let err = t.get_path_latency(&[ComponentId::FlightController, ComponentId::Gps]);
    assert_eq!(
        err.unwrap_err(),
        TopologyError::NoConnection(ComponentId::FlightController, ComponentId::Gps)
    );
}

#[test]
fn test_path_reliability_multiplicative_and_bounded() {
    let mut t = PhysicalTopology::new();
    t.add_component(place(ComponentId::FlightController, 0, 0, 0));
    t.add_component(place(ComponentId::SensorHub, 40_000, 0, 0));
    t.add_component(place(ComponentId::Camera, 90_000, 0, 0));
    let copper = ConnectionType::Copper {
        gauge: 26,
        wires: 4,
        shielded: false,
    };
    t.connect(&ComponentId::FlightController, &ComponentId::SensorHub, copper)
        .unwrap();
    t.connect(&ComponentId::SensorHub, &ComponentId::Camera, copper)
        .unwrap();

    let ab = t
        .get_path_reliability(&[ComponentId::FlightController, ComponentId::SensorHub])
        .unwrap();
    let bc = t
        .get_path_reliability(&[ComponentId::SensorHub, ComponentId::Camera])
        .unwrap();
    let abc = t
        .get_path_reliability(&[
            ComponentId::FlightController,
            ComponentId::SensorHub,
            ComponentId::Camera,
        ])
        .unwrap();

    // The two-hop reliability is the product of the one-hop fractions.
    assert_eq!(abc, (ab as u128 * bc as u128 / SCALE_PPT as u128) as u64);
    // And every reliability is a fraction of at most one.
    assert!(ab <= SCALE_PPT && bc <= SCALE_PPT && abc <= SCALE_PPT);
    assert!(abc > 0);
    assert!(abc <= ab && abc <= bc);
}

#[test]
fn test_find_shortest_path_none_for_disjoint_components() {
    // Two registered components with no connecting edges yield no path.
    let mut t = PhysicalTopology::new();
    t.add_component(place(ComponentId::FlightController, 0, 0, 0));
    t.add_component(place(ComponentId::Gps, 10_000, 0, 0));
    assert!(t
        .find_shortest_path(&ComponentId::FlightController, &ComponentId::Gps)
        .is_none());
    assert!(t
        .find_shortest_path(&ComponentId::FlightController, &ComponentId::Radar)
        .is_none());
}

#[test]
fn test_find_shortest_path_prefers_lower_latency() {
    // A quick two-hop PCB route beats a slow direct copper run.
    let mut t = PhysicalTopology::new();
    t.add_component(place(ComponentId::FlightController, 0, 0, 0));
    t.add_component(place(ComponentId::SensorHub, 10_000, 0, 0));
    t.add_component(place(ComponentId::Camera, 20_000, 0, 0));
    t.connect(
        &ComponentId::FlightController,
        &ComponentId::Camera,
        ConnectionType::Copper {
            gauge: 26,
            wires: 2,
            shielded: false,
        },
    )
    .unwrap();
    t.connect(&ComponentId::FlightController, &ComponentId::SensorHub, trace())
        .unwrap();
    t.connect(&ComponentId::SensorHub, &ComponentId::Camera, trace())
        .unwrap();

    let path = t
        .find_shortest_path(&ComponentId::FlightController, &ComponentId::Camera)
        .unwrap();
    assert_eq!(
        path,
        vec![
            ComponentId::FlightController,
            ComponentId::SensorHub,
            ComponentId::Camera
        ]
    );
    let via = t.get_path_latency(&path).unwrap();
    let direct = t
        .get_path_latency(&[ComponentId::FlightController, ComponentId::Camera])
        .unwrap();
    assert!(via <= direct);
}

#[test]
fn test_quadcopter_motor_paths() {
    // The reference layout yields four finite positive motor latencies.
    let layout = create_quadcopter_layout();
    for i in 0..4 {
        let latency = layout
            .get_path_latency(&[
                ComponentId::FlightController,
                ComponentId::MotorController(i),
            ])
            .unwrap();
        assert!(latency > 0);
    }
}

#[test]
fn test_quadcopter_totals_accumulate() {
    let layout = create_quadcopter_layout();
    assert!(layout.total_weight_mg >= 200_000);
    assert!(layout.total_power_nw > 0);
    assert!(layout.dimensions_um.width_um >= 140_000);
    assert!(layout.dimensions_um.length_um >= 140_000);
}

#[test]
fn test_interference_impact_scores() {
    let layout = create_quadcopter_layout();
    let emc = create_emc_profile();
    let impact = layout_impact_sum(&emc, &layout);

    // One score per stored connection, and the sources must matter:
    // an empty profile scores everything zero.
    let empty = EmcProperties::new();
    let none = layout_impact_sum(&empty, &layout);
    assert!(impact > 0);
    assert_eq!(none, 0);
}

fn layout_impact_sum(emc: &EmcProperties, layout: &PhysicalTopology) -> u128 {
    let impacts = emc.calculate_interference_impact(layout);
    assert_eq!(impacts.len(), layout.connections.len());
    impacts.iter().map(|e| e.score as u128).sum()
}

#[test]
fn test_shielding_reduces_interference() {
    // The same link shielded scores a fifth of its unshielded score.
    let mut t = PhysicalTopology::new();
    t.add_component(place(ComponentId::FlightController, 0, 0, 0));
    t.add_component(place(ComponentId::SensorHub, 30_000, 0, 0));
    t.add_component(place(ComponentId::RadioLink, 10_000, 20_000, 0));

    let mut emc = create_emc_profile();
    emc.set_susceptibility(
        ComponentId::FlightController,
        uav_ooda::interference::EmissionType::RadioFrequency(2400),
        900,
    );
    emc.set_susceptibility(
        ComponentId::SensorHub,
        uav_ooda::interference::EmissionType::RadioFrequency(2400),
        900,
    );

    t.connect(
        &ComponentId::FlightController,
        &ComponentId::SensorHub,
        ConnectionType::Copper {
            gauge: 24,
            wires: 2,
            shielded: false,
        },
    )
    .unwrap();
    let bare = emc.calculate_interference_impact(&t)[0].score;

    t.connect(
        &ComponentId::FlightController,
        &ComponentId::SensorHub,
        ConnectionType::Copper {
            gauge: 24,
            wires: 2,
            shielded: true,
        },
    )
    .unwrap();
    let shielded = emc.calculate_interference_impact(&t)[0].score;

    assert!(bare > 0);
    assert_eq!(shielded, bare / 5);
}
