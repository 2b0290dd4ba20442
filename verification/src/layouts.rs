//! Reference layouts: a quadcopter's component placement and its
//! electromagnetic profile.

use vstd::prelude::*;
use crate::interference::{EmcProperties, EmissionSource, EmissionType};
use crate::topology::{
    Component, ComponentId, ConnectionType, PhysicalTopology, Position, find_conn,
    spec_component_of, spec_conn_latency_ps,
};
use crate::math::lemma_sqrt_floor_at_least;

verus! {

/// A component at the given placement, in micrometers.
fn part(id: ComponentId, x_um: i64, y_um: i64, z_um: i64, weight_mg: u64, power_mw: u64, heat_mc:
    u64) -> (c: Component)
    requires
        -100_000_000 <= x_um <= 100_000_000,
        -100_000_000 <= y_um <= 100_000_000,
        -100_000_000 <= z_um <= 100_000_000,
    ensures
        c.id == id,
        c.position == (Position { x_um, y_um, z_um }),
        c.position.wf(),
{
    Component {
        id,
        position: Position { x_um, y_um, z_um },
        weight_mg,
        power_consumption_mw: power_mw,
        heat_generation_mc: heat_mc,
    }
}

/// Where the reference quadcopter places each of its fifteen components,
/// in micrometers from the airframe center.
pub open spec fn spec_quadcopter_position(id: ComponentId) -> Position {
    match id {
        ComponentId::FlightController => Position { x_um: 0, y_um: 0, z_um: 0 },
        ComponentId::MainProcessor => Position { x_um: 20_000, y_um: 0, z_um: 0 },
        ComponentId::PowerDistribution => Position { x_um: -20_000i64, y_um: 0, z_um: -10_000i64 },
        ComponentId::Battery => Position { x_um: -50_000i64, y_um: 0, z_um: -20_000i64 },
        ComponentId::Gps => Position { x_um: 0, y_um: 0, z_um: 30_000 },
        ComponentId::Imu => Position { x_um: 5_000, y_um: 0, z_um: 0 },
        ComponentId::Camera => Position { x_um: 50_000, y_um: 0, z_um: -20_000i64 },
        ComponentId::Lidar => Position { x_um: 40_000, y_um: 0, z_um: -10_000i64 },
        ComponentId::Radar => Position { x_um: 0, y_um: 0, z_um: 0 },
        ComponentId::RadioLink => Position { x_um: 0, y_um: 0, z_um: 20_000 },
        ComponentId::MotorController(i) => {
            if i == 0 {
                Position { x_um: 70_000, y_um: 70_000, z_um: 0 }
            } else if i == 1 {
                Position { x_um: 70_000, y_um: -70_000i64, z_um: 0 }
            } else if i == 2 {
                Position { x_um: -70_000i64, y_um: -70_000i64, z_um: 0 }
            } else {
                Position { x_um: -70_000i64, y_um: 70_000, z_um: 0 }
            }
        },
        ComponentId::SensorHub => Position { x_um: 30_000, y_um: 0, z_um: 0 },
        ComponentId::CommunicationHub => Position { x_um: 10_000, y_um: 0, z_um: 0 },
    }
}

/// The reference quadcopter registers each listed component at its
/// reference placement.
pub open spec fn spec_quadcopter_placement(t: PhysicalTopology) -> bool {
    forall|id: ComponentId|
        (#[trigger] quadcopter_part_listed(id)) ==> t.spec_has_component(id) && spec_component_of(
            t.components@,
            id,
        ).position == spec_quadcopter_position(id)
}

/// Which component ids the reference quadcopter carries.
pub open spec fn quadcopter_part_listed(id: ComponentId) -> bool {
    match id {
        ComponentId::FlightController => true,
        ComponentId::MainProcessor => true,
        ComponentId::PowerDistribution => true,
        ComponentId::Battery => true,
        ComponentId::Gps => true,
        ComponentId::Imu => true,
        ComponentId::Camera => true,
        ComponentId::Lidar => true,
        ComponentId::Radar => false,
        ComponentId::RadioLink => true,
        ComponentId::MotorController(i) => i < 4,
        ComponentId::SensorHub => true,
        ComponentId::CommunicationHub => true,
    }
}

/// The reference quadcopter's wiring plan: each listed unordered pair has
/// a stored link of the stated medium.
pub open spec fn spec_quadcopter_link(t: PhysicalTopology, a: ComponentId, b: ComponentId, ct: ConnectionType) -> bool {
    find_conn(t.connections@, a, b) matches Some(c) && c.connection_type == ct
}

/// The reference quadcopter's components, placed and not yet wired.
#[verifier::rlimit(100)]
fn quadcopter_components() -> (t: PhysicalTopology)
    ensures
        t.wf(),
        spec_quadcopter_placement(t),
        t.connections@.len() == 0,
{
    let mut topology = PhysicalTopology::new();
    proof {
        assert(topology.components@.len() == 0);
        assert(!topology.spec_has_component(ComponentId::FlightController));
    }
    topology.add_component(part(ComponentId::FlightController, 0, 0, 0, 30_000, 500, 10_000));
    proof {
        assert(topology.components@.len() == 1);
    }
    topology.add_component(part(ComponentId::MainProcessor, 20_000, 0, 0, 50_000, 2000, 20_000));
    proof {
        assert(topology.components@.len() == 2);
    }
    topology.add_component(
        part(ComponentId::PowerDistribution, -20_000, 0, -10_000, 40_000, 100, 15_000),
    );
    proof {
        assert(topology.components@.len() == 3);
    }
    topology.add_component(part(ComponentId::Battery, -50_000, 0, -20_000, 200_000, 0, 5_000));
    proof {
        assert(topology.components@.len() == 4);
    }
    topology.add_component(part(ComponentId::Gps, 0, 0, 30_000, 15_000, 80, 2_000));
    proof {
        assert(topology.components@.len() == 5);
    }
    topology.add_component(part(ComponentId::Imu, 5_000, 0, 0, 10_000, 50, 1_000));
    proof {
        assert(topology.components@.len() == 6);
    }
    topology.add_component(part(ComponentId::Camera, 50_000, 0, -20_000, 35_000, 350, 5_000));
    proof {
        assert(topology.components@.len() == 7);
    }
    topology.add_component(part(ComponentId::Lidar, 40_000, 0, -10_000, 60_000, 800, 8_000));
    proof {
        assert(topology.components@.len() == 8);
    }
    topology.add_component(part(ComponentId::RadioLink, 0, 0, 20_000, 20_000, 1000, 12_000));
    proof {
        assert(topology.components@.len() == 9);
    }
    topology.add_component(
        part(ComponentId::CommunicationHub, 10_000, 0, 0, 15_000, 300, 4_000),
    );
    proof {
        assert(topology.components@.len() == 10);
    }
    topology.add_component(
        part(ComponentId::MotorController(0), 70_000, 70_000, 0, 25_000, 250, 15_000),
    );
    proof {
        assert(topology.components@.len() == 11);
    }
    topology.add_component(
        part(ComponentId::MotorController(1), 70_000, -70_000, 0, 25_000, 250, 15_000),
    );
    proof {
        assert(topology.components@.len() == 12);
    }
    topology.add_component(
        part(ComponentId::MotorController(2), -70_000, -70_000, 0, 25_000, 250, 15_000),
    );
    proof {
        assert(topology.components@.len() == 13);
    }
    topology.add_component(
        part(ComponentId::MotorController(3), -70_000, 70_000, 0, 25_000, 250, 15_000),
    );
    proof {
        assert(topology.components@.len() == 14);
    }
    topology.add_component(part(ComponentId::SensorHub, 30_000, 0, 0, 20_000, 150, 3_000));
    proof {
        assert(topology.components@.len() == 15);
    }

    proof {
        assert(topology.components@[0].id == ComponentId::FlightController);
        crate::topology::lemma_component_of_at(topology, 0);
        assert(topology.components@[1].id == ComponentId::MainProcessor);
        crate::topology::lemma_component_of_at(topology, 1);
        assert(topology.components@[2].id == ComponentId::PowerDistribution);
        crate::topology::lemma_component_of_at(topology, 2);
        assert(topology.components@[3].id == ComponentId::Battery);
        crate::topology::lemma_component_of_at(topology, 3);
        assert(topology.components@[4].id == ComponentId::Gps);
        crate::topology::lemma_component_of_at(topology, 4);
        assert(topology.components@[5].id == ComponentId::Imu);
        crate::topology::lemma_component_of_at(topology, 5);
        assert(topology.components@[6].id == ComponentId::Camera);
        crate::topology::lemma_component_of_at(topology, 6);
        assert(topology.components@[7].id == ComponentId::Lidar);
        crate::topology::lemma_component_of_at(topology, 7);
        assert(topology.components@[8].id == ComponentId::RadioLink);
        crate::topology::lemma_component_of_at(topology, 8);
        assert(topology.components@[9].id == ComponentId::CommunicationHub);
        crate::topology::lemma_component_of_at(topology, 9);
        assert(topology.components@[10].id == ComponentId::MotorController(0));
        crate::topology::lemma_component_of_at(topology, 10);
        assert(topology.components@[11].id == ComponentId::MotorController(1));
        crate::topology::lemma_component_of_at(topology, 11);
        assert(topology.components@[12].id == ComponentId::MotorController(2));
        crate::topology::lemma_component_of_at(topology, 12);
        assert(topology.components@[13].id == ComponentId::MotorController(3));
        crate::topology::lemma_component_of_at(topology, 13);
        assert(topology.components@[14].id == ComponentId::SensorHub);
        crate::topology::lemma_component_of_at(topology, 14);
        assert forall|id: ComponentId| #[trigger] quadcopter_part_listed(
            id,
        ) implies topology.spec_has_component(id) && spec_component_of(topology.components@, id)
            .position == spec_quadcopter_position(id) by {
            match id {
                ComponentId::MotorController(i) => {
                    assert(i == 0 || i == 1 || i == 2 || i == 3);
                },
                _ => {},
            }
            assert(topology.spec_has_component(id));
        }
    }
    topology
}

/// Wires the control core: processor, inertial unit, power and battery.
#[verifier::rlimit(100)]
fn wire_control_core(topology: &mut PhysicalTopology)
    requires
        old(topology).wf(),
        spec_quadcopter_placement(*old(topology)),
    ensures
        final(topology).wf(),
        final(topology).components@ == old(topology).components@,
        spec_quadcopter_placement(*final(topology)),
        spec_quadcopter_link(
            *final(topology),
            ComponentId::FlightController,
            ComponentId::MainProcessor,
            ConnectionType::PcbTrace { width_mils: 20, layers: 2 },
        ),
        spec_quadcopter_link(
            *final(topology),
            ComponentId::FlightController,
            ComponentId::Imu,
            ConnectionType::PcbTrace { width_mils: 10, layers: 1 },
        ),
        spec_quadcopter_link(
            *final(topology),
            ComponentId::FlightController,
            ComponentId::PowerDistribution,
            ConnectionType::Copper { gauge: 22, wires: 4, shielded: true },
        ),
        spec_quadcopter_link(
            *final(topology),
            ComponentId::PowerDistribution,
            ComponentId::Battery,
            ConnectionType::Copper { gauge: 18, wires: 2, shielded: true },
        ),
        forall|a: ComponentId, b: ComponentId|
            !crate::topology::same_pair(a, b, ComponentId::FlightController, ComponentId::MainProcessor) && !crate::topology::same_pair(a, b, ComponentId::FlightController, ComponentId::Imu) && !crate::topology::same_pair(a, b, ComponentId::FlightController, ComponentId::PowerDistribution) && !crate::topology::same_pair(a, b, ComponentId::PowerDistribution, ComponentId::Battery) ==> #[trigger] find_conn(final(topology).connections@, a, b) == find_conn(
                old(topology).connections@,
                a,
                b,
            ),
{
    proof {
        assert(quadcopter_part_listed(ComponentId::FlightController));
        assert(quadcopter_part_listed(ComponentId::MainProcessor));
        assert(quadcopter_part_listed(ComponentId::Imu));
        assert(quadcopter_part_listed(ComponentId::PowerDistribution));
        assert(quadcopter_part_listed(ComponentId::Battery));
    }
    let _ = topology.connect(
        &ComponentId::FlightController,
        &ComponentId::MainProcessor,
        ConnectionType::PcbTrace { width_mils: 20, layers: 2 },
    );
    let _ = topology.connect(
        &ComponentId::FlightController,
        &ComponentId::Imu,
        ConnectionType::PcbTrace { width_mils: 10, layers: 1 },
    );
    let _ = topology.connect(
        &ComponentId::FlightController,
        &ComponentId::PowerDistribution,
        ConnectionType::Copper { gauge: 22, wires: 4, shielded: true },
    );
    let _ = topology.connect(
        &ComponentId::PowerDistribution,
        &ComponentId::Battery,
        ConnectionType::Copper { gauge: 18, wires: 2, shielded: true },
    );
    proof {
        assert forall|id: ComponentId| #[trigger] quadcopter_part_listed(
            id,
        ) implies topology.spec_has_component(id) && spec_component_of(topology.components@, id)
            .position == spec_quadcopter_position(id) by {
            assert(old(topology).spec_has_component(id));
            assert(topology.components@ == old(topology).components@);
        }
    }
}

/// Wires the flight controller and power distribution to the four motor controllers.
#[verifier::rlimit(100)]
fn wire_motors(topology: &mut PhysicalTopology)
    requires
        old(topology).wf(),
        spec_quadcopter_placement(*old(topology)),
    ensures
        final(topology).wf(),
        final(topology).components@ == old(topology).components@,
        spec_quadcopter_placement(*final(topology)),
        spec_quadcopter_link(
            *final(topology),
            ComponentId::FlightController,
            ComponentId::MotorController(0),
            ConnectionType::Copper { gauge: 24, wires: 3, shielded: false },
        ),
        spec_quadcopter_link(
            *final(topology),
            ComponentId::PowerDistribution,
            ComponentId::MotorController(0),
            ConnectionType::Copper { gauge: 20, wires: 2, shielded: false },
        ),
        spec_quadcopter_link(
            *final(topology),
            ComponentId::FlightController,
            ComponentId::MotorController(1),
            ConnectionType::Copper { gauge: 24, wires: 3, shielded: false },
        ),
        spec_quadcopter_link(
            *final(topology),
            ComponentId::PowerDistribution,
            ComponentId::MotorController(1),
            ConnectionType::Copper { gauge: 20, wires: 2, shielded: false },
        ),
        spec_quadcopter_link(
            *final(topology),
            ComponentId::FlightController,
            ComponentId::MotorController(2),
            ConnectionType::Copper { gauge: 24, wires: 3, shielded: false },
        ),
        spec_quadcopter_link(
            *final(topology),
            ComponentId::PowerDistribution,
            ComponentId::MotorController(2),
            ConnectionType::Copper { gauge: 20, wires: 2, shielded: false },
        ),
        spec_quadcopter_link(
            *final(topology),
            ComponentId::FlightController,
            ComponentId::MotorController(3),
            ConnectionType::Copper { gauge: 24, wires: 3, shielded: false },
        ),
        spec_quadcopter_link(
            *final(topology),
            ComponentId::PowerDistribution,
            ComponentId::MotorController(3),
            ConnectionType::Copper { gauge: 20, wires: 2, shielded: false },
        ),
        forall|i: u8|
            i < 4 ==> spec_conn_latency_ps(
                (#[trigger] find_conn(
                    final(topology).connections@,
                    ComponentId::FlightController,
                    ComponentId::MotorController(i),
                )).unwrap(),
            ) > 0,
        forall|a: ComponentId, b: ComponentId|
            !crate::topology::same_pair(a, b, ComponentId::FlightController, ComponentId::MotorController(0)) && !crate::topology::same_pair(a, b, ComponentId::PowerDistribution, ComponentId::MotorController(0)) && !crate::topology::same_pair(a, b, ComponentId::FlightController, ComponentId::MotorController(1)) && !crate::topology::same_pair(a, b, ComponentId::PowerDistribution, ComponentId::MotorController(1)) && !crate::topology::same_pair(a, b, ComponentId::FlightController, ComponentId::MotorController(2)) && !crate::topology::same_pair(a, b, ComponentId::PowerDistribution, ComponentId::MotorController(2)) && !crate::topology::same_pair(a, b, ComponentId::FlightController, ComponentId::MotorController(3)) && !crate::topology::same_pair(a, b, ComponentId::PowerDistribution, ComponentId::MotorController(3)) ==> #[trigger] find_conn(final(topology).connections@, a, b) == find_conn(
                old(topology).connections@,
                a,
                b,
            ),
{
    proof {
        assert(quadcopter_part_listed(ComponentId::FlightController));
        assert(quadcopter_part_listed(ComponentId::PowerDistribution));
        assert(quadcopter_part_listed(ComponentId::MotorController(0)));
        assert(quadcopter_part_listed(ComponentId::MotorController(1)));
        assert(quadcopter_part_listed(ComponentId::MotorController(2)));
        assert(quadcopter_part_listed(ComponentId::MotorController(3)));
    }
    let _ = topology.connect(
        &ComponentId::FlightController,
        &ComponentId::MotorController(0),
        ConnectionType::Copper { gauge: 24, wires: 3, shielded: false },
    );
    let _ = topology.connect(
        &ComponentId::PowerDistribution,
        &ComponentId::MotorController(0),
        ConnectionType::Copper { gauge: 20, wires: 2, shielded: false },
    );
    let _ = topology.connect(
        &ComponentId::FlightController,
        &ComponentId::MotorController(1),
        ConnectionType::Copper { gauge: 24, wires: 3, shielded: false },
    );
    let _ = topology.connect(
        &ComponentId::PowerDistribution,
        &ComponentId::MotorController(1),
        ConnectionType::Copper { gauge: 20, wires: 2, shielded: false },
    );
    let _ = topology.connect(
        &ComponentId::FlightController,
        &ComponentId::MotorController(2),
        ConnectionType::Copper { gauge: 24, wires: 3, shielded: false },
    );
    let _ = topology.connect(
        &ComponentId::PowerDistribution,
        &ComponentId::MotorController(2),
        ConnectionType::Copper { gauge: 20, wires: 2, shielded: false },
    );
    let _ = topology.connect(
        &ComponentId::FlightController,
        &ComponentId::MotorController(3),
        ConnectionType::Copper { gauge: 24, wires: 3, shielded: false },
    );
    let _ = topology.connect(
        &ComponentId::PowerDistribution,
        &ComponentId::MotorController(3),
        ConnectionType::Copper { gauge: 20, wires: 2, shielded: false },
    );
    proof {
        assert forall|id: ComponentId| #[trigger] quadcopter_part_listed(
            id,
        ) implies topology.spec_has_component(id) && spec_component_of(topology.components@, id)
            .position == spec_quadcopter_position(id) by {
            assert(old(topology).spec_has_component(id));
            assert(topology.components@ == old(topology).components@);
        }
        assert forall|i: u8|
            i < 4 implies spec_conn_latency_ps(
            (#[trigger] find_conn(
                topology.connections@,
                ComponentId::FlightController,
                ComponentId::MotorController(i),
            )).unwrap(),
        ) > 0 by {
            assert(i == 0 || i == 1 || i == 2 || i == 3);
            let c = find_conn(
                topology.connections@,
                ComponentId::FlightController,
                ComponentId::MotorController(i),
            ).unwrap();
            assert(quadcopter_part_listed(ComponentId::FlightController));
            assert(quadcopter_part_listed(ComponentId::MotorController(i)));
            let p_fc = spec_quadcopter_position(ComponentId::FlightController);
            let p_m = spec_quadcopter_position(ComponentId::MotorController(i));
            assert(spec_component_of(old(topology).components@, ComponentId::FlightController)
                .position == p_fc);
            assert(spec_component_of(
                old(topology).components@,
                ComponentId::MotorController(i),
            ).position == p_m);
            assert(crate::topology::dist_sq(p_fc, p_m) == 9_800_000_000) by (nonlinear_arith)
                requires
                    p_fc == (Position { x_um: 0, y_um: 0, z_um: 0 }),
                    p_m == spec_quadcopter_position(ComponentId::MotorController(i)),
                    i < 4,
            ;
            assert(98_000 * 98_000 <= 9_800_000_000nat) by (nonlinear_arith);
            lemma_sqrt_floor_at_least(9_800_000_000nat, 98_000nat);
            assert(c.length_um >= 98_000);
            assert(c.latency_ps_per_cm == 500);
            assert(c.length_um * c.latency_ps_per_cm / 10_000 >= 4900) by (nonlinear_arith)
                requires
                    c.length_um >= 98_000,
                    c.latency_ps_per_cm == 500,
            ;
        }
    }
}

/// Wires the processor's buses: sensor hub, communication hub, radio.
#[verifier::rlimit(100)]
fn wire_buses(topology: &mut PhysicalTopology)
    requires
        old(topology).wf(),
        spec_quadcopter_placement(*old(topology)),
    ensures
        final(topology).wf(),
        final(topology).components@ == old(topology).components@,
        spec_quadcopter_placement(*final(topology)),
        spec_quadcopter_link(
            *final(topology),
            ComponentId::MainProcessor,
            ComponentId::SensorHub,
            ConnectionType::PcbTrace { width_mils: 25, layers: 2 },
        ),
        spec_quadcopter_link(
            *final(topology),
            ComponentId::MainProcessor,
            ComponentId::CommunicationHub,
            ConnectionType::PcbTrace { width_mils: 30, layers: 2 },
        ),
        spec_quadcopter_link(
            *final(topology),
            ComponentId::CommunicationHub,
            ComponentId::RadioLink,
            ConnectionType::Copper { gauge: 24, wires: 6, shielded: true },
        ),
        forall|a: ComponentId, b: ComponentId|
            !crate::topology::same_pair(a, b, ComponentId::MainProcessor, ComponentId::SensorHub) && !crate::topology::same_pair(a, b, ComponentId::MainProcessor, ComponentId::CommunicationHub) && !crate::topology::same_pair(a, b, ComponentId::CommunicationHub, ComponentId::RadioLink) ==> #[trigger] find_conn(final(topology).connections@, a, b) == find_conn(
                old(topology).connections@,
                a,
                b,
            ),
{
    proof {
        assert(quadcopter_part_listed(ComponentId::MainProcessor));
        assert(quadcopter_part_listed(ComponentId::SensorHub));
        assert(quadcopter_part_listed(ComponentId::CommunicationHub));
        assert(quadcopter_part_listed(ComponentId::RadioLink));
    }
    let _ = topology.connect(
        &ComponentId::MainProcessor,
        &ComponentId::SensorHub,
        ConnectionType::PcbTrace { width_mils: 25, layers: 2 },
    );
    let _ = topology.connect(
        &ComponentId::MainProcessor,
        &ComponentId::CommunicationHub,
        ConnectionType::PcbTrace { width_mils: 30, layers: 2 },
    );
    let _ = topology.connect(
        &ComponentId::CommunicationHub,
        &ComponentId::RadioLink,
        ConnectionType::Copper { gauge: 24, wires: 6, shielded: true },
    );
    proof {
        assert forall|id: ComponentId| #[trigger] quadcopter_part_listed(
            id,
        ) implies topology.spec_has_component(id) && spec_component_of(topology.components@, id)
            .position == spec_quadcopter_position(id) by {
            assert(old(topology).spec_has_component(id));
            assert(topology.components@ == old(topology).components@);
        }
    }
}

/// Wires the sensor hub's instruments and the satellite radio path.
#[verifier::rlimit(100)]
fn wire_sensors(topology: &mut PhysicalTopology)
    requires
        old(topology).wf(),
        spec_quadcopter_placement(*old(topology)),
    ensures
        final(topology).wf(),
        final(topology).components@ == old(topology).components@,
        spec_quadcopter_placement(*final(topology)),
        spec_quadcopter_link(
            *final(topology),
            ComponentId::SensorHub,
            ComponentId::Camera,
            ConnectionType::Copper { gauge: 26, wires: 8, shielded: false },
        ),
        spec_quadcopter_link(
            *final(topology),
            ComponentId::SensorHub,
            ComponentId::Lidar,
            ConnectionType::Copper { gauge: 24, wires: 6, shielded: true },
        ),
        spec_quadcopter_link(
            *final(topology),
            ComponentId::SensorHub,
            ComponentId::Gps,
            ConnectionType::Copper { gauge: 26, wires: 4, shielded: true },
        ),
        spec_quadcopter_link(
            *final(topology),
            ComponentId::Gps,
            ComponentId::RadioLink,
            ConnectionType::Wireless { frequency_mhz: 1575, power_mw: 100 },
        ),
        forall|a: ComponentId, b: ComponentId|
            !crate::topology::same_pair(a, b, ComponentId::SensorHub, ComponentId::Camera) && !crate::topology::same_pair(a, b, ComponentId::SensorHub, ComponentId::Lidar) && !crate::topology::same_pair(a, b, ComponentId::SensorHub, ComponentId::Gps) && !crate::topology::same_pair(a, b, ComponentId::Gps, ComponentId::RadioLink) ==> #[trigger] find_conn(final(topology).connections@, a, b) == find_conn(
                old(topology).connections@,
                a,
                b,
            ),
{
    proof {
        assert(quadcopter_part_listed(ComponentId::SensorHub));
        assert(quadcopter_part_listed(ComponentId::Camera));
        assert(quadcopter_part_listed(ComponentId::Lidar));
        assert(quadcopter_part_listed(ComponentId::Gps));
        assert(quadcopter_part_listed(ComponentId::RadioLink));
    }
    let _ = topology.connect(
        &ComponentId::SensorHub,
        &ComponentId::Camera,
        ConnectionType::Copper { gauge: 26, wires: 8, shielded: false },
    );
    let _ = topology.connect(
        &ComponentId::SensorHub,
        &ComponentId::Lidar,
        ConnectionType::Copper { gauge: 24, wires: 6, shielded: true },
    );
    let _ = topology.connect(
        &ComponentId::SensorHub,
        &ComponentId::Gps,
        ConnectionType::Copper { gauge: 26, wires: 4, shielded: true },
    );
    let _ = topology.connect(
        &ComponentId::Gps,
        &ComponentId::RadioLink,
        ConnectionType::Wireless { frequency_mhz: 1575, power_mw: 100 },
    );
    proof {
        assert forall|id: ComponentId| #[trigger] quadcopter_part_listed(
            id,
        ) implies topology.spec_has_component(id) && spec_component_of(topology.components@, id)
            .position == spec_quadcopter_position(id) by {
            assert(old(topology).spec_has_component(id));
            assert(topology.components@ == old(topology).components@);
        }
    }
}

/// The reference quadcopter: flight controller at the center, processor
/// and sensors forward, power aft, four motor controllers on the arms,
/// and the links described by the airframe's wiring plan. Every link pair
/// named by the control cycle's timing queries is connected, and each
/// motor link carries a strictly positive latency.
#[verifier::rlimit(100)]
pub fn create_quadcopter_layout() -> (t: PhysicalTopology)
    ensures
        t.wf(),
        spec_quadcopter_placement(t),
        spec_quadcopter_link(
            t,
            ComponentId::FlightController,
            ComponentId::MainProcessor,
            ConnectionType::PcbTrace { width_mils: 20, layers: 2 },
        ),
        spec_quadcopter_link(
            t,
            ComponentId::FlightController,
            ComponentId::Imu,
            ConnectionType::PcbTrace { width_mils: 10, layers: 1 },
        ),
        spec_quadcopter_link(
            t,
            ComponentId::FlightController,
            ComponentId::PowerDistribution,
            ConnectionType::Copper { gauge: 22, wires: 4, shielded: true },
        ),
        spec_quadcopter_link(
            t,
            ComponentId::PowerDistribution,
            ComponentId::Battery,
            ConnectionType::Copper { gauge: 18, wires: 2, shielded: true },
        ),
        forall|i: u8|
            i < 4 ==> #[trigger] spec_quadcopter_link(
                t,
                ComponentId::FlightController,
                ComponentId::MotorController(i),
                ConnectionType::Copper { gauge: 24, wires: 3, shielded: false },
            ),
        forall|i: u8|
            i < 4 ==> #[trigger] spec_quadcopter_link(
                t,
                ComponentId::PowerDistribution,
                ComponentId::MotorController(i),
                ConnectionType::Copper { gauge: 20, wires: 2, shielded: false },
            ),
        spec_quadcopter_link(
            t,
            ComponentId::MainProcessor,
            ComponentId::SensorHub,
            ConnectionType::PcbTrace { width_mils: 25, layers: 2 },
        ),
        spec_quadcopter_link(
            t,
            ComponentId::MainProcessor,
            ComponentId::CommunicationHub,
            ConnectionType::PcbTrace { width_mils: 30, layers: 2 },
        ),
        spec_quadcopter_link(
            t,
            ComponentId::CommunicationHub,
            ComponentId::RadioLink,
            ConnectionType::Copper { gauge: 24, wires: 6, shielded: true },
        ),
        spec_quadcopter_link(
            t,
            ComponentId::SensorHub,
            ComponentId::Camera,
            ConnectionType::Copper { gauge: 26, wires: 8, shielded: false },
        ),
        spec_quadcopter_link(
            t,
            ComponentId::SensorHub,
            ComponentId::Lidar,
            ConnectionType::Copper { gauge: 24, wires: 6, shielded: true },
        ),
        spec_quadcopter_link(
            t,
            ComponentId::SensorHub,
            ComponentId::Gps,
            ConnectionType::Copper { gauge: 26, wires: 4, shielded: true },
        ),
        spec_quadcopter_link(
            t,
            ComponentId::Gps,
            ComponentId::RadioLink,
            ConnectionType::Wireless { frequency_mhz: 1575, power_mw: 100 },
        ),
        forall|i: u8|
            i < 4 ==> spec_conn_latency_ps(
                (#[trigger] find_conn(
                    t.connections@,
                    ComponentId::FlightController,
                    ComponentId::MotorController(i),
                )).unwrap(),
            ) > 0,
{
    let mut topology = quadcopter_components();
    wire_control_core(&mut topology);
    wire_motors(&mut topology);
    wire_buses(&mut topology);
    wire_sensors(&mut topology);
    topology
}

/// The reference electromagnetic profile: the motors radiate magnetically,
/// the radio link radiates at 2.4 gigahertz, the power distribution emits
/// electrical noise; the satellite receiver, the inertial unit and the
/// digital components carry matching susceptibilities.
pub fn create_emc_profile() -> (r: EmcProperties)
    ensures
        r.sources@.len() == 6,
{
    let mut emc = EmcProperties::new();

    emc.add_emission_source(
        EmissionSource {
            component: ComponentId::MotorController(0),
            emission_type: EmissionType::Magnetic,
            strength_milli: 8000,
            falloff_rate: 2,
        },
    );
    emc.add_emission_source(
        EmissionSource {
            component: ComponentId::MotorController(1),
            emission_type: EmissionType::Magnetic,
            strength_milli: 8000,
            falloff_rate: 2,
        },
    );
    emc.add_emission_source(
        EmissionSource {
            component: ComponentId::MotorController(2),
            emission_type: EmissionType::Magnetic,
            strength_milli: 8000,
            falloff_rate: 2,
        },
    );
    emc.add_emission_source(
        EmissionSource {
            component: ComponentId::MotorController(3),
            emission_type: EmissionType::Magnetic,
            strength_milli: 8000,
            falloff_rate: 2,
        },
    );
    emc.add_emission_source(
        EmissionSource {
            component: ComponentId::RadioLink,
            emission_type: EmissionType::RadioFrequency(2400),
            strength_milli: 7000,
            falloff_rate: 2,
        },
    );
    emc.add_emission_source(
        EmissionSource {
            component: ComponentId::PowerDistribution,
            emission_type: EmissionType::Electrical,
            strength_milli: 6000,
            falloff_rate: 2,
        },
    );

    emc.set_susceptibility(ComponentId::Gps, EmissionType::RadioFrequency(2400), 900);
    emc.set_susceptibility(ComponentId::Imu, EmissionType::Magnetic, 800);
    emc.set_susceptibility(ComponentId::FlightController, EmissionType::Electrical, 500);
    emc.set_susceptibility(ComponentId::MainProcessor, EmissionType::Electrical, 500);
    emc.set_susceptibility(ComponentId::SensorHub, EmissionType::Electrical, 500);
    emc.set_susceptibility(ComponentId::Camera, EmissionType::Electrical, 500);
    emc.set_susceptibility(ComponentId::Lidar, EmissionType::Electrical, 500);

    emc
}

} // verus!
