//! Physical layout of UAV components and the connection graph derived
//! from it.
//!
//! Units: coordinates and lengths are micrometers, per-centimeter latency
//! is picoseconds, data rates are kilobits per second, bit-error rates are
//! errors per 10^18 bits, power is nanowatts for links and milliwatts for
//! components, weight is milligrams.

use vstd::prelude::*;
use crate::math::{isqrt, sqrt_floor, lemma_sqrt_floor_bounds};

verus! {

/// Largest coordinate magnitude a well-formed position may have (1 km).
pub const MAX_COORD_UM: i64 = 100_000_000;

/// Upper bound on the distance between two well-formed positions.
pub const MAX_LENGTH_UM: u64 = 350_000_000;

/// Upper bound on the derived per-centimeter latency of any link.
pub const MAX_LATENCY_PS_PER_CM: u32 = 30_000;

/// Micrometers per centimeter.
pub const UM_PER_CM: u64 = 10_000;

/// A bit-error rate of one: 10^18 errors per 10^18 bits.
pub const ERROR_RATE_ONE_ATTO: u64 = 1_000_000_000_000_000_000;

/// A placement relative to the UAV center, in micrometers per axis.
#[derive(Debug, Clone, Copy, PartialEq, Eq, Structural)]
pub struct Position {
    pub x_um: i64,
    pub y_um: i64,
    pub z_um: i64,
}

/// Absolute value as a spec-level integer.
pub open spec fn abs_int(v: int) -> int {
    if v < 0 {
        -v
    } else {
        v
    }
}

/// Squared Euclidean distance between two positions.
pub open spec fn dist_sq(a: Position, b: Position) -> int {
    let dx = a.x_um - b.x_um;
    let dy = a.y_um - b.y_um;
    let dz = a.z_um - b.z_um;
    dx * dx + dy * dy + dz * dz
}

/// Euclidean distance, rounded down to whole micrometers.
pub open spec fn spec_distance_um(a: Position, b: Position) -> nat {
    sqrt_floor(dist_sq(a, b) as nat)
}

impl Position {
    /// Coordinates bounded so that squared distances cannot overflow.
    pub open spec fn wf(self) -> bool {
        &&& -MAX_COORD_UM <= self.x_um <= MAX_COORD_UM
        &&& -MAX_COORD_UM <= self.y_um <= MAX_COORD_UM
        &&& -MAX_COORD_UM <= self.z_um <= MAX_COORD_UM
    }

    /// Euclidean distance to `other` in micrometers, rounded down.
    pub fn distance_to(&self, other: &Position) -> (d: u64)
        requires
            self.wf(),
            other.wf(),
        ensures
            d == spec_distance_um(*self, *other),
            d <= MAX_LENGTH_UM,
    {
        let dx: i64 = self.x_um - other.x_um;
        let dy: i64 = self.y_um - other.y_um;
        let dz: i64 = self.z_um - other.z_um;
        proof {
            assert(dx * dx <= 200_000_000 * 200_000_000) by (nonlinear_arith)
                requires
                    -200_000_000 <= dx <= 200_000_000,
            ;
            assert(dy * dy <= 200_000_000 * 200_000_000) by (nonlinear_arith)
                requires
                    -200_000_000 <= dy <= 200_000_000,
            ;
            assert(dz * dz <= 200_000_000 * 200_000_000) by (nonlinear_arith)
                requires
                    -200_000_000 <= dz <= 200_000_000,
            ;
            assert(dx * dx >= 0) by (nonlinear_arith);
            assert(dy * dy >= 0) by (nonlinear_arith);
            assert(dz * dz >= 0) by (nonlinear_arith);
        }
        let sq: i64 = dx * dx + dy * dy + dz * dz;
        let d: u64 = isqrt(sq as u128);
        proof {
            let n = sq as nat;
            lemma_sqrt_floor_bounds(n);
            if d > MAX_LENGTH_UM {
                assert((MAX_LENGTH_UM + 1) * (MAX_LENGTH_UM + 1) <= (d as nat) * (d as nat))
                    by (nonlinear_arith)
                    requires
                        MAX_LENGTH_UM + 1 <= d as nat,
                        MAX_LENGTH_UM == 350_000_000u64,
                ;
                assert(350_000_001int * 350_000_001int > 120_000_000_000_000_000int)
                    by (nonlinear_arith);
            }
        }
        d
    }
}

/// The physical medium of a link between two components.
#[derive(Debug, Clone, Copy, PartialEq, Eq, Structural)]
pub enum ConnectionType {
    /// Copper cable: AWG gauge, wire count, and shielding.
    Copper { gauge: u8, wires: u8, shielded: bool },
    /// Fiber optic line: mode and capacity in gigabits per second.
    FiberOptic { single_mode: bool, bandwidth_gbps: u32 },
    /// Direct PCB trace: width in mils and layers crossed.
    PcbTrace { width_mils: u16, layers: u8 },
    /// Radio link: carrier frequency in megahertz and transmit power in
    /// milliwatts.
    Wireless { frequency_mhz: u32, power_mw: u32 },
}

impl ConnectionType {
    /// Parameters on which link derivation would divide by zero are ruled
    /// out.
    pub open spec fn valid(self) -> bool {
        &&& (self matches ConnectionType::PcbTrace { width_mils, .. } ==> width_mils >= 1)
        &&& (self matches ConnectionType::Wireless { power_mw, .. } ==> power_mw >= 1)
    }
}

/// Signal propagation latency per centimeter, in picoseconds.
pub open spec fn spec_latency_ps_per_cm(ct: ConnectionType) -> u32 {
    match ct {
        ConnectionType::Copper { .. } => 500,
        ConnectionType::FiberOptic { .. } => 330,
        ConnectionType::PcbTrace { layers, .. } => (300 + 100 * (
            if layers >= 1 {
                (layers - 1) as u32
            } else {
                0
            }
        )) as u32,
        ConnectionType::Wireless { .. } => 330,
    }
}

/// Copper resistance factor: resistance per centimeter scaled by 10^8.
pub open spec fn spec_copper_resistance_factor(gauge: u8) -> u64 {
    if gauge == 22 {
        50_000
    } else if gauge == 24 {
        80_000
    } else if gauge == 26 {
        130_000
    } else {
        100_000
    }
}

/// Peak data rate of a link, in kilobits per second.
pub open spec fn spec_data_rate_kbps(ct: ConnectionType) -> int {
    match ct {
        ConnectionType::Copper { gauge, wires, .. } => {
            let base: int = if gauge == 22 {
                100_000
            } else if gauge == 24 {
                50_000
            } else if gauge == 26 {
                25_000
            } else {
                10_000
            };
            base * wires / 4
        },
        ConnectionType::FiberOptic { bandwidth_gbps, .. } => bandwidth_gbps * 1_000_000,
        ConnectionType::PcbTrace { width_mils, .. } => width_mils * 100_000,
        ConnectionType::Wireless { frequency_mhz, .. } => {
            if frequency_mhz < 1000 {
                10_000
            } else if frequency_mhz < 2500 {
                54_000
            } else if frequency_mhz < 6000 {
                1_200_000
            } else {
                3_000_000
            }
        },
    }
}

/// Bit-error rate of a link in errors per 10^18 bits, before capping.
pub open spec fn spec_error_rate_raw(ct: ConnectionType, length_um: int) -> int {
    match ct {
        ConnectionType::Copper { gauge, shielded, .. } => {
            let unshielded = length_um * spec_copper_resistance_factor(gauge) / (UM_PER_CM as int);
            if shielded {
                unshielded / 5
            } else {
                unshielded
            }
        },
        ConnectionType::FiberOptic { single_mode, .. } => {
            if single_mode {
                length_um
            } else {
                10 * length_um
            }
        },
        ConnectionType::PcbTrace { layers, .. } => length_um * (
            if layers >= 1 {
                (layers - 1) as int
            } else {
                0
            }
        ),
        ConnectionType::Wireless { frequency_mhz, power_mw } => length_um * frequency_mhz * 1000
            / (power_mw as int),
    }
}

/// Bit-error rate of a link, capped at one error per bit.
pub open spec fn spec_error_rate_atto(ct: ConnectionType, length_um: int) -> int {
    let raw = spec_error_rate_raw(ct, length_um);
    if raw > ERROR_RATE_ONE_ATTO {
        ERROR_RATE_ONE_ATTO as int
    } else {
        raw
    }
}

/// Power drawn by a link, in nanowatts.
pub open spec fn spec_link_power_nw(ct: ConnectionType, length_um: int) -> int {
    match ct {
        ConnectionType::Copper { gauge, .. } => {
            // Resistive loss: 10 mW per centimeter-ohm of wire.
            let r: int = if gauge == 22 {
                5
            } else if gauge == 24 {
                8
            } else if gauge == 26 {
                13
            } else {
                10
            };
            length_um * r / 10
        },
        ConnectionType::FiberOptic { .. } => 50_000_000,
        ConnectionType::PcbTrace { width_mils, .. } => length_um * 100 / (width_mils as int),
        ConnectionType::Wireless { power_mw, .. } => power_mw * 1_000_000,
    }
}

/// A derived link between two components.
#[derive(Debug, Clone, Copy)]
pub struct Connection {
    pub connection_type: ConnectionType,
    pub length_um: u64,
    pub max_data_rate_kbps: u64,
    pub latency_ps_per_cm: u32,
    pub error_rate_atto: u64,
    pub power_nw: u64,
}

impl Connection {
    /// Field bounds that every connection stored in a topology satisfies.
    pub open spec fn wf(self) -> bool {
        &&& self.length_um <= MAX_LENGTH_UM
        &&& self.latency_ps_per_cm <= MAX_LATENCY_PS_PER_CM
        &&& self.error_rate_atto <= ERROR_RATE_ONE_ATTO
    }

    /// A connection derived from `ct` over a span of `length_um`.
    pub open spec fn derived_from(self, ct: ConnectionType, length_um: int) -> bool {
        &&& self.connection_type == ct
        &&& self.length_um == length_um
        &&& self.max_data_rate_kbps == spec_data_rate_kbps(ct)
        &&& self.latency_ps_per_cm == spec_latency_ps_per_cm(ct)
        &&& self.error_rate_atto == spec_error_rate_atto(ct, length_um)
        &&& self.power_nw == spec_link_power_nw(ct, length_um)
    }
}

/// Builds the connection record for a link of type `ct` spanning
/// `length_um`.
fn derive_connection(ct: ConnectionType, length_um: u64) -> (c: Connection)
    requires
        ct.valid(),
        length_um <= MAX_LENGTH_UM,
    ensures
        c.derived_from(ct, length_um as int),
        c.wf(),
{
    let latency_ps_per_cm: u32 = match ct {
        ConnectionType::Copper { .. } => 500,
        ConnectionType::FiberOptic { .. } => 330,
        ConnectionType::PcbTrace { layers, .. } => {
            let crossed: u32 = if layers >= 1 {
                (layers - 1) as u32
            } else {
                0
            };
            300 + 100 * crossed
        },
        ConnectionType::Wireless { .. } => 330,
    };
    let max_data_rate_kbps: u64 = match ct {
        ConnectionType::Copper { gauge, wires, .. } => {
            let base: u64 = if gauge == 22 {
                100_000
            } else if gauge == 24 {
                50_000
            } else if gauge == 26 {
                25_000
            } else {
                10_000
            };
            base * (wires as u64) / 4
        },
        ConnectionType::FiberOptic { bandwidth_gbps, .. } => (bandwidth_gbps as u64) * 1_000_000,
        ConnectionType::PcbTrace { width_mils, .. } => (width_mils as u64) * 100_000,
        ConnectionType::Wireless { frequency_mhz, .. } => {
            if frequency_mhz < 1000 {
                10_000
            } else if frequency_mhz < 2500 {
                54_000
            } else if frequency_mhz < 6000 {
                1_200_000
            } else {
                3_000_000
            }
        },
    };
    let error_raw: u64 = match ct {
        ConnectionType::Copper { gauge, shielded, .. } => {
            let factor: u64 = if gauge == 22 {
                50_000
            } else if gauge == 24 {
                80_000
            } else if gauge == 26 {
                130_000
            } else {
                100_000
            };
            let unshielded: u64 = length_um * factor / UM_PER_CM;
            if shielded {
                unshielded / 5
            } else {
                unshielded
            }
        },
        ConnectionType::FiberOptic { single_mode, .. } => {
            if single_mode {
                length_um
            } else {
                10 * length_um
            }
        },
        ConnectionType::PcbTrace { layers, .. } => {
            let crossed: u64 = if layers >= 1 {
                (layers - 1) as u64
            } else {
                0
            };
            proof {
                assert(length_um * crossed <= 350_000_000int * 255int) by (nonlinear_arith)
                    requires
                        length_um <= 350_000_000u64,
                        crossed <= 255u64,
                ;
            }
            length_um * crossed
        },
        ConnectionType::Wireless { frequency_mhz, power_mw } => {
            proof {
                assert((length_um as int) * (frequency_mhz as int) * 1000
                    <= 350_000_000int * 4_294_967_295int * 1000int) by (nonlinear_arith)
                    requires
                        length_um <= 350_000_000u64,
                        frequency_mhz <= 4_294_967_295u32,
                ;
            }
            let scaled: u128 = (length_um as u128) * (frequency_mhz as u128) * 1000
                / (power_mw as u128);
            if scaled > ERROR_RATE_ONE_ATTO as u128 {
                ERROR_RATE_ONE_ATTO
            } else {
                scaled as u64
            }
        },
    };
    let error_rate_atto: u64 = if error_raw > ERROR_RATE_ONE_ATTO {
        ERROR_RATE_ONE_ATTO
    } else {
        error_raw
    };
    let power_nw: u64 = match ct {
        ConnectionType::Copper { gauge, .. } => {
            let r: u64 = if gauge == 22 {
                5
            } else if gauge == 24 {
                8
            } else if gauge == 26 {
                13
            } else {
                10
            };
            length_um * r / 10
        },
        ConnectionType::FiberOptic { .. } => 50_000_000,
        ConnectionType::PcbTrace { width_mils, .. } => length_um * 100 / (width_mils as u64),
        ConnectionType::Wireless { power_mw, .. } => (power_mw as u64) * 1_000_000,
    };
    Connection {
        connection_type: ct,
        length_um,
        max_data_rate_kbps,
        latency_ps_per_cm,
        error_rate_atto,
        power_nw,
    }
}

} // verus!

verus! {

/// Identity of a physical component in the layout.
#[derive(Debug, Clone, Copy, PartialEq, Eq, Structural, Hash)]
pub enum ComponentId {
    FlightController,
    MainProcessor,
    PowerDistribution,
    Gps,
    Imu,
    Camera,
    Lidar,
    Radar,
    RadioLink,
    MotorController(u8),
    Battery,
    SensorHub,
    CommunicationHub,
}

/// A placed component with its static physical properties.
#[derive(Debug, Clone, Copy)]
pub struct Component {
    pub id: ComponentId,
    pub position: Position,
    /// Mass in milligrams.
    pub weight_mg: u64,
    /// Steady power draw in milliwatts.
    pub power_consumption_mw: u64,
    /// Heat output in millidegrees Celsius.
    pub heat_generation_mc: u64,
}

/// A stored link, keyed by the two endpoints in insertion order.
#[derive(Debug, Clone, Copy)]
pub struct ConnectionEntry {
    pub from: ComponentId,
    pub to: ComponentId,
    pub connection: Connection,
}

/// Failures of topology construction and path queries.
#[derive(Debug, Clone, Copy, PartialEq, Eq, Structural)]
pub enum TopologyError {
    /// A `connect` call named a component that was never added.
    ComponentMissing(ComponentId),
    /// A path query crossed a pair of components with no stored link.
    NoConnection(ComponentId, ComponentId),
    /// A path query needs at least two components.
    PathTooShort,
}

/// Milliwatts expressed in nanowatts, capped at the largest `u64`.
pub open spec fn mw_to_nw_sat(mw: int) -> int {
    if mw * 1_000_000 > u64::MAX {
        u64::MAX as int
    } else {
        mw * 1_000_000
    }
}

/// `a + b`, capped at the largest `u64`.
pub open spec fn sat_add_u64(a: int, b: int) -> int {
    if a + b > u64::MAX {
        u64::MAX as int
    } else {
        a + b
    }
}

/// Saturating addition on `u64`.
pub fn sat_add(a: u64, b: u64) -> (r: u64)
    ensures
        r == sat_add_u64(a as int, b as int),
{
    if a > u64::MAX - b {
        u64::MAX
    } else {
        a + b
    }
}

/// Whether the entry links `a` and `b`, in either storage order.
pub open spec fn entry_links(e: ConnectionEntry, a: ComponentId, b: ComponentId) -> bool {
    (e.from == a && e.to == b) || (e.from == b && e.to == a)
}

/// The first stored connection between `a` and `b`, in either order.
pub open spec fn find_conn(conns: Seq<ConnectionEntry>, a: ComponentId, b: ComponentId) -> Option<
    Connection,
>
    decreases conns.len(),
{
    if conns.len() == 0 {
        None
    } else if entry_links(conns[0], a, b) {
        Some(conns[0].connection)
    } else {
        find_conn(conns.drop_first(), a, b)
    }
}

/// If nothing before index `i` links `a` and `b` but entry `i` does, the
/// lookup returns entry `i`.
pub proof fn lemma_find_conn_hit(conns: Seq<ConnectionEntry>, a: ComponentId, b: ComponentId, i: int)
    requires
        0 <= i < conns.len(),
        entry_links(conns[i], a, b),
        forall|j: int| 0 <= j < i ==> !entry_links(conns[j], a, b),
    ensures
        find_conn(conns, a, b) == Some(conns[i].connection),
    decreases i,
{
    if i > 0 {
        lemma_find_conn_hit(conns.drop_first(), a, b, i - 1);
    }
}

/// If no entry links `a` and `b`, the lookup misses.
pub proof fn lemma_find_conn_miss(conns: Seq<ConnectionEntry>, a: ComponentId, b: ComponentId)
    requires
        forall|j: int| 0 <= j < conns.len() ==> !entry_links(conns[j], a, b),
    ensures
        find_conn(conns, a, b) is None,
    decreases conns.len(),
{
    if conns.len() > 0 {
        lemma_find_conn_miss(conns.drop_first(), a, b);
    }
}

/// The complete physical topology: components, links, and running totals.
#[derive(Debug, Clone)]
pub struct PhysicalTopology {
    pub components: Vec<Component>,
    pub connections: Vec<ConnectionEntry>,
    /// Total component mass in milligrams, saturating.
    pub total_weight_mg: u64,
    /// Total component and link power draw in nanowatts, saturating.
    pub total_power_nw: u64,
    /// Bounding-box estimate in micrometers.
    pub dimensions_um: Dimensions,
}

/// Bounding-box estimate of the airframe, in micrometers.
#[derive(Debug, Clone, Copy, PartialEq, Eq, Structural)]
pub struct Dimensions {
    pub width_um: u64,
    pub length_um: u64,
    pub height_um: u64,
}

/// Whether some component in `s` carries `id`.
pub open spec fn has_component_in(s: Seq<Component>, id: ComponentId) -> bool {
    exists|i: int| 0 <= i < s.len() && s[i].id == id
}

impl PhysicalTopology {
    /// Component ids are unique, positions are bounded, and every stored
    /// connection is well formed and the only one for its endpoint pair.
    pub open spec fn wf(self) -> bool {
        &&& (forall|i: int|
            0 <= i < self.components@.len() ==> (#[trigger] self.components@[i]).position.wf())
        &&& (forall|i: int, j: int|
            0 <= i < j < self.components@.len() ==> (#[trigger] self.components@[i]).id != (
            #[trigger] self.components@[j]).id)
        &&& (forall|k: int|
            0 <= k < self.connections@.len() ==> (#[trigger] self.connections@[k]).connection.wf())
        &&& (forall|k: int, l: int|
            0 <= k < l < self.connections@.len() ==> !entry_links(
                #[trigger] self.connections@[k],
                (#[trigger] self.connections@[l]).from,
                self.connections@[l].to,
            ))
    }

    /// Whether a component with `id` has been added.
    pub open spec fn spec_has_component(self, id: ComponentId) -> bool {
        has_component_in(self.components@, id)
    }

    /// An empty topology.
    pub fn new() -> (t: PhysicalTopology)
        ensures
            t.wf(),
            t.components@.len() == 0,
            t.connections@.len() == 0,
            t.total_weight_mg == 0,
            t.total_power_nw == 0,
            t.dimensions_um == (Dimensions { width_um: 0, length_um: 0, height_um: 0 }),
    {
        PhysicalTopology {
            components: Vec::new(),
            connections: Vec::new(),
            total_weight_mg: 0,
            total_power_nw: 0,
            dimensions_um: Dimensions { width_um: 0, length_um: 0, height_um: 0 },
        }
    }

    /// Index of the component carrying `id`, if any.
    fn find_component(&self, id: &ComponentId) -> (r: Option<usize>)
        ensures
            match r {
                Some(i) => i < self.components@.len() && self.components@[i as int].id == *id,
                None => !self.spec_has_component(*id),
            },
    {
        let mut i: usize = 0;
        while i < self.components.len()
            invariant
                i <= self.components@.len(),
                forall|j: int| 0 <= j < i ==> (#[trigger] self.components@[j]).id != *id,
            decreases self.components@.len() - i,
        {
            if self.components[i].id == *id {
                return Some(i);
            }
            i = i + 1;
        }
        None
    }

    /// Whether a component with `id` has been added.
    pub fn has_component(&self, id: &ComponentId) -> (r: bool)
        ensures
            r == self.spec_has_component(*id),
    {
        self.find_component(id).is_some()
    }

    /// Registers a component: totals grow by its mass and power draw, the
    /// bounding box grows to twice the largest coordinate magnitude seen on
    /// each axis, and a component carrying the same id is replaced.
    pub fn add_component(&mut self, component: Component)
        requires
            old(self).wf(),
            component.position.wf(),
        ensures
            final(self).wf(),
            final(self).spec_has_component(component.id),
            forall|id: ComponentId|
                #[trigger] final(self).spec_has_component(id) <==> (old(self).spec_has_component(id)
                    || id == component.id),
            final(self).total_weight_mg == sat_add_u64(
                old(self).total_weight_mg as int,
                component.weight_mg as int,
            ),
            final(self).total_power_nw == sat_add_u64(
                old(self).total_power_nw as int,
                mw_to_nw_sat(component.power_consumption_mw as int),
            ),
            final(self).connections@ == old(self).connections@,
            old(self).spec_has_component(component.id) ==> final(self).components@ == old(self).components@.update(spec_index_of(*old(self), component.id), component),
            !old(self).spec_has_component(component.id) ==> final(self).components@ == old(self).components@.push(component),
            final(self).dimensions_um.width_um == if 2 * abs_int(component.position.y_um as int)
                > old(self).dimensions_um.width_um {
                2 * abs_int(component.position.y_um as int)
            } else {
                old(self).dimensions_um.width_um as int
            },
            final(self).dimensions_um.length_um == if 2 * abs_int(component.position.x_um as int)
                > old(self).dimensions_um.length_um {
                2 * abs_int(component.position.x_um as int)
            } else {
                old(self).dimensions_um.length_um as int
            },
            final(self).dimensions_um.height_um == if 2 * abs_int(component.position.z_um as int)
                > old(self).dimensions_um.height_um {
                2 * abs_int(component.position.z_um as int)
            } else {
                old(self).dimensions_um.height_um as int
            },
    {
        self.total_weight_mg = sat_add(self.total_weight_mg, component.weight_mg);
        let power_nw: u64 = saturating_mul_mw_to_nw(component.power_consumption_mw);
        self.total_power_nw = sat_add(self.total_power_nw, power_nw);

        let ax: u64 = abs_i64_um(component.position.x_um);
        let ay: u64 = abs_i64_um(component.position.y_um);
        let az: u64 = abs_i64_um(component.position.z_um);
        let w = self.dimensions_um.width_um;
        let l = self.dimensions_um.length_um;
        let h = self.dimensions_um.height_um;
        self.dimensions_um = Dimensions {
            width_um: if 2 * ay > w {
                2 * ay
            } else {
                w
            },
            length_um: if 2 * ax > l {
                2 * ax
            } else {
                l
            },
            height_um: if 2 * az > h {
                2 * az
            } else {
                h
            },
        };

        match self.find_component(&component.id) {
            Some(i) => {
                self.components[i] = component;
                proof {
                    lemma_index_of(*old(self), component.id);
                    assert(i as int == spec_index_of(*old(self), component.id));
                    assert(self.components@[i as int].id == component.id);
                    assert forall|a: int|
                        0 <= a < self.components@.len() implies (
                    #[trigger] self.components@[a]).id == old(self).components@[a].id by {}
                    assert forall|a: int, b: int|
                        0 <= a < b < self.components@.len() implies (
                    #[trigger] self.components@[a]).id != (#[trigger] self.components@[b]).id by {
                        assert(old(self).components@[a].id != old(self).components@[b].id);
                    }
                    assert forall|a: int|
                        0 <= a < self.components@.len() implies (
                    #[trigger] self.components@[a]).position.wf() by {
                        if a != i {
                            assert(old(self).components@[a].position.wf());
                        }
                    }
                    assert forall|id: ComponentId| #[trigger] has_component_in(
                        self.components@,
                        id,
                    ) implies (has_component_in(old(self).components@, id) || id
                        == component.id) by {
                        let k = choose|k: int|
                            0 <= k < self.components@.len() && self.components@[k].id == id;
                        if k != i {
                            assert(old(self).components@[k].id == id);
                        }
                    }
                    assert forall|id: ComponentId|
                        has_component_in(old(self).components@, id)
                            implies #[trigger] has_component_in(self.components@, id) by {
                        let k = choose|k: int|
                            0 <= k < old(self).components@.len() && old(self).components@[k].id
                                == id;
                        assert(self.components@[k].id == id);
                    }
                }
            },
            None => {
                self.components.push(component);
                proof {
                    let n = old(self).components@.len() as int;
                    assert(self.components@[n].id == component.id);
                    assert forall|a: int, b: int|
                        0 <= a < b < self.components@.len() implies (
                    #[trigger] self.components@[a]).id != (#[trigger] self.components@[b]).id by {
                        if b < n {
                            assert(old(self).components@[a].id != old(self).components@[b].id);
                        } else {
                            assert(old(self).components@[a].id == self.components@[a].id);
                            assert(!has_component_in(old(self).components@, component.id));
                            assert(old(self).components@[a].id != component.id);
                        }
                    }
                    assert forall|a: int|
                        0 <= a < self.components@.len() implies (
                    #[trigger] self.components@[a]).position.wf() by {
                        if a < n {
                            assert(old(self).components@[a].position.wf());
                        }
                    }
                    assert forall|id: ComponentId| #[trigger] has_component_in(
                        self.components@,
                        id,
                    ) implies (has_component_in(old(self).components@, id) || id
                        == component.id) by {
                        let k = choose|k: int|
                            0 <= k < self.components@.len() && self.components@[k].id == id;
                        if k < old(self).components@.len() {
                            assert(old(self).components@[k].id == id);
                        }
                    }
                    assert forall|id: ComponentId|
                        has_component_in(old(self).components@, id)
                            implies #[trigger] has_component_in(self.components@, id) by {
                        let k = choose|k: int|
                            0 <= k < old(self).components@.len() && old(self).components@[k].id
                                == id;
                        assert(self.components@[k].id == id);
                    }
                }
            },
        }
    }
}

/// Absolute value of a bounded coordinate.
fn abs_i64_um(v: i64) -> (r: u64)
    requires
        -MAX_COORD_UM <= v <= MAX_COORD_UM,
    ensures
        r == abs_int(v as int),
{
    if v < 0 {
        (-v) as u64
    } else {
        v as u64
    }
}

/// Milliwatts to nanowatts, capped at the largest `u64`.
fn saturating_mul_mw_to_nw(mw: u64) -> (r: u64)
    ensures
        r == mw_to_nw_sat(mw as int),
{
    if mw > u64::MAX / 1_000_000 {
        proof {
            assert(mw * 1_000_000 > u64::MAX) by (nonlinear_arith)
                requires
                    mw > u64::MAX / 1_000_000,
            ;
        }
        u64::MAX
    } else {
        proof {
            assert(mw * 1_000_000 <= u64::MAX) by (nonlinear_arith)
                requires
                    mw <= u64::MAX / 1_000_000,
            ;
        }
        mw * 1_000_000
    }
}

} // verus!

verus! {

/// Bits in the reference 1 KB message used for reliability.
pub const BITS_PER_MESSAGE: u64 = 8192;

/// A reliability of one: 10^12 parts per trillion.
pub const SCALE_PPT: u64 = 1_000_000_000_000;

/// `k`-fold product of the fraction `s / 10^12`, kept in parts per
/// trillion with the scale divided back out after every step.
pub open spec fn pow_frac_ppt(s: int, k: nat) -> int
    decreases k,
{
    if k == 0 {
        SCALE_PPT as int
    } else {
        pow_frac_ppt(s, (k - 1) as nat) * s / (SCALE_PPT as int)
    }
}

/// The iterated product of a fraction at most one stays within scale.
pub proof fn lemma_pow_frac_ppt_bounds(s: int, k: nat)
    requires
        0 <= s <= SCALE_PPT,
    ensures
        0 <= pow_frac_ppt(s, k) <= SCALE_PPT,
    decreases k,
{
    if k > 0 {
        lemma_pow_frac_ppt_bounds(s, (k - 1) as nat);
        let p = pow_frac_ppt(s, (k - 1) as nat);
        assert(0 <= p * s / (SCALE_PPT as int) <= SCALE_PPT) by (nonlinear_arith)
            requires
                0 <= p <= SCALE_PPT,
                0 <= s <= SCALE_PPT,
        ;
    }
}

/// One-hop latency of a connection, in picoseconds.
pub open spec fn spec_conn_latency_ps(c: Connection) -> int {
    c.length_um * c.latency_ps_per_cm / (UM_PER_CM as int)
}

/// Message reliability of a connection as a fraction in parts per
/// trillion: the per-bit success probability raised to the bits of the
/// reference message.
pub open spec fn spec_conn_reliability_ppt(c: Connection) -> int {
    pow_frac_ppt(SCALE_PPT - c.error_rate_atto / 1_000_000, BITS_PER_MESSAGE as nat)
}

/// A well-formed connection's one-hop latency is under 2^31.
pub proof fn lemma_conn_latency_bound(c: Connection)
    requires
        c.wf(),
    ensures
        0 <= spec_conn_latency_ps(c) <= 1_050_000_000,
{
    assert(c.length_um * c.latency_ps_per_cm <= 350_000_000int * 30_000int) by (nonlinear_arith)
        requires
            c.length_um <= 350_000_000u64,
            c.latency_ps_per_cm <= 30_000u32,
    ;
    assert(c.length_um * c.latency_ps_per_cm >= 0) by (nonlinear_arith);
}

impl Connection {
    /// Latency over the link's full length, in picoseconds; capped at the
    /// largest `u64`, which no connection of a topology reaches.
    pub fn calculate_latency(&self) -> (r: u64)
        ensures
            spec_conn_latency_ps(*self) <= u64::MAX ==> r == spec_conn_latency_ps(*self),
            self.wf() ==> r == spec_conn_latency_ps(*self),
    {
        proof {
            assert((self.length_um as int) * (self.latency_ps_per_cm as int)
                <= 0xffff_ffff_ffff_ffffint * 0xffff_ffffint) by (nonlinear_arith)
                requires
                    self.length_um <= 0xffff_ffff_ffff_ffffu64,
                    self.latency_ps_per_cm <= 0xffff_ffffu32,
            ;
            assert((self.length_um as int) * (self.latency_ps_per_cm as int) >= 0)
                by (nonlinear_arith);
            if self.wf() {
                lemma_conn_latency_bound(*self);
            }
        }
        let wide: u128 = (self.length_um as u128) * (self.latency_ps_per_cm as u128) / (
        UM_PER_CM as u128);
        if wide > 0xffff_ffff_ffff_ffff_u128 {
            0xffff_ffff_ffff_ffff
        } else {
            wide as u64
        }
    }

    /// Reliability of one reference message over this link, in parts per
    /// trillion of certainty.
    pub fn calculate_reliability(&self) -> (r: u64)
        requires
            self.wf(),
        ensures
            r == spec_conn_reliability_ppt(*self),
            r <= SCALE_PPT,
    {
        let s_ppt: u64 = SCALE_PPT - self.error_rate_atto / 1_000_000;
        proof {
            lemma_pow_frac_ppt_bounds(s_ppt as int, BITS_PER_MESSAGE as nat);
        }
        let mut acc: u64 = SCALE_PPT;
        let mut i: u64 = 0;
        while i < BITS_PER_MESSAGE
            invariant
                i <= BITS_PER_MESSAGE,
                0 <= s_ppt <= SCALE_PPT,
                acc == pow_frac_ppt(s_ppt as int, i as nat),
                0 <= acc <= SCALE_PPT,
            decreases BITS_PER_MESSAGE - i,
        {
            proof {
                lemma_pow_frac_ppt_bounds(s_ppt as int, (i + 1) as nat);
            }
            acc = ((acc as u128) * (s_ppt as u128) / (SCALE_PPT as u128)) as u64;
            i = i + 1;
        }
        acc
    }
}

/// Latency of a path, summed over consecutive hops; meaningful when every
/// hop has a stored connection.
pub open spec fn spec_path_latency_ps(conns: Seq<ConnectionEntry>, path: Seq<ComponentId>) -> int
    decreases path.len(),
{
    if path.len() < 2 {
        0
    } else {
        spec_path_latency_ps(conns, path.drop_last()) + spec_conn_latency_ps(
            find_conn(conns, path[path.len() - 2], path[path.len() - 1]).unwrap(),
        )
    }
}

/// Reliability of a path: the per-hop fractions multiplied together in
/// parts per trillion, hop by hop from the front.
pub open spec fn spec_path_reliability_ppt(conns: Seq<ConnectionEntry>, path: Seq<ComponentId>) -> int
    decreases path.len(),
{
    if path.len() < 2 {
        SCALE_PPT as int
    } else {
        spec_path_reliability_ppt(conns, path.drop_last()) * spec_conn_reliability_ppt(
            find_conn(conns, path[path.len() - 2], path[path.len() - 1]).unwrap(),
        ) / (SCALE_PPT as int)
    }
}

/// Every consecutive pair of the path has a stored connection.
pub open spec fn spec_hops_connected(conns: Seq<ConnectionEntry>, path: Seq<ComponentId>) -> bool {
    forall|i: int|
        0 <= i < path.len() - 1 ==> (#[trigger] find_conn(conns, path[i], path[i + 1])) is Some
}

} // verus!

verus! {

/// Two unordered pairs of endpoints are the same.
pub open spec fn same_pair(a1: ComponentId, b1: ComponentId, a2: ComponentId, b2: ComponentId) -> bool {
    (a1 == a2 && b1 == b2) || (a1 == b2 && b1 == a2)
}

/// Lookups ignore entries that differ only where neither side links the
/// queried pair.
pub proof fn lemma_find_conn_frame(
    s1: Seq<ConnectionEntry>,
    s2: Seq<ConnectionEntry>,
    a: ComponentId,
    b: ComponentId,
)
    requires
        s1.len() == s2.len(),
        forall|j: int|
            0 <= j < s1.len() ==> (#[trigger] s1[j] == #[trigger] s2[j] || (!entry_links(s1[j], a, b)
                && !entry_links(s2[j], a, b))),
    ensures
        find_conn(s1, a, b) == find_conn(s2, a, b),
    decreases s1.len(),
{
    if s1.len() > 0 {
        assert(s1[0] == s2[0] || (!entry_links(s1[0], a, b) && !entry_links(s2[0], a, b)));
        lemma_find_conn_frame(s1.drop_first(), s2.drop_first(), a, b);
    }
}

/// Appending an entry changes only lookups that previously missed.
pub proof fn lemma_find_conn_push(
    s: Seq<ConnectionEntry>,
    e: ConnectionEntry,
    a: ComponentId,
    b: ComponentId,
)
    ensures
        find_conn(s.push(e), a, b) == if find_conn(s, a, b) is Some {
            find_conn(s, a, b)
        } else if entry_links(e, a, b) {
            Some(e.connection)
        } else {
            None
        },
    decreases s.len(),
{
    let t = s.push(e);
    assert(t.len() == s.len() + 1);
    if s.len() == 0 {
        assert(t[0] == e);
        if entry_links(e, a, b) {
            assert(find_conn(t, a, b) == Some(e.connection));
        } else {
            assert(t.drop_first() =~= Seq::<ConnectionEntry>::empty());
            assert(find_conn(t.drop_first(), a, b) is None);
            assert(find_conn(t, a, b) is None);
        }
        assert(find_conn(s, a, b) is None);
    } else {
        assert(t[0] == s[0]);
        if entry_links(s[0], a, b) {
            assert(find_conn(t, a, b) == Some(s[0].connection));
            assert(find_conn(s, a, b) == Some(s[0].connection));
        } else {
            assert(t.drop_first() =~= s.drop_first().push(e));
            lemma_find_conn_push(s.drop_first(), e, a, b);
            assert(find_conn(t, a, b) == find_conn(t.drop_first(), a, b));
            assert(find_conn(s, a, b) == find_conn(s.drop_first(), a, b));
        }
    }
}

/// A successful lookup returns one of the stored connections.
pub proof fn lemma_find_conn_is_stored(s: Seq<ConnectionEntry>, a: ComponentId, b: ComponentId)
    requires
        find_conn(s, a, b) is Some,
    ensures
        exists|k: int|
            0 <= k < s.len() && (#[trigger] s[k]).connection == find_conn(s, a, b).unwrap()
                && entry_links(s[k], a, b),
    decreases s.len(),
{
    if entry_links(s[0], a, b) {
        assert(s[0].connection == find_conn(s, a, b).unwrap() && entry_links(s[0], a, b));
    } else {
        lemma_find_conn_is_stored(s.drop_first(), a, b);
        let k = choose|k: int|
            0 <= k < s.drop_first().len() && (#[trigger] s.drop_first()[k]).connection == find_conn(
                s.drop_first(),
                a,
                b,
            ).unwrap() && entry_links(s.drop_first()[k], a, b);
        assert(s[k + 1] == s.drop_first()[k]);
    }
}

/// In a well-formed topology, whatever a lookup returns is well formed.
pub proof fn lemma_find_conn_wf(t: PhysicalTopology, a: ComponentId, b: ComponentId)
    requires
        t.wf(),
        find_conn(t.connections@, a, b) is Some,
    ensures
        find_conn(t.connections@, a, b).unwrap().wf(),
{
    lemma_find_conn_is_stored(t.connections@, a, b);
}

/// The component of `s` that carries `id`; meaningful when ids are unique
/// and `id` is present.
pub open spec fn spec_component_of(s: Seq<Component>, id: ComponentId) -> Component {
    s[choose|i: int| 0 <= i < s.len() && s[i].id == id]
}

impl PhysicalTopology {
    /// Index of the stored link for the unordered pair, if any.
    fn find_link_index(&self, a: &ComponentId, b: &ComponentId) -> (r: Option<usize>)
        ensures
            match r {
                Some(i) => i < self.connections@.len() && entry_links(
                    self.connections@[i as int],
                    *a,
                    *b,
                ) && forall|j: int|
                    0 <= j < i ==> !entry_links(#[trigger] self.connections@[j], *a, *b),
                None => forall|j: int|
                    0 <= j < self.connections@.len() ==> !entry_links(
                        #[trigger] self.connections@[j],
                        *a,
                        *b,
                    ),
            },
    {
        let mut i: usize = 0;
        while i < self.connections.len()
            invariant
                i <= self.connections@.len(),
                forall|j: int| 0 <= j < i ==> !entry_links(#[trigger] self.connections@[j], *a, *b),
            decreases self.connections@.len() - i,
        {
            let e = &self.connections[i];
            if (e.from == *a && e.to == *b) || (e.from == *b && e.to == *a) {
                return Some(i);
            }
            i = i + 1;
        }
        None
    }

    /// The stored connection between `a` and `b`, tolerant of either
    /// insertion order.
    pub fn lookup_connection(&self, a: &ComponentId, b: &ComponentId) -> (r: Option<Connection>)
        ensures
            r == find_conn(self.connections@, *a, *b),
    {
        let mut i: usize = 0;
        while i < self.connections.len()
            invariant
                i <= self.connections@.len(),
                forall|j: int| 0 <= j < i ==> !entry_links(#[trigger] self.connections@[j], *a, *b),
            decreases self.connections@.len() - i,
        {
            let e = &self.connections[i];
            if (e.from == *a && e.to == *b) || (e.from == *b && e.to == *a) {
                proof {
                    lemma_find_conn_hit(self.connections@, *a, *b, i as int);
                }
                return Some(self.connections[i].connection);
            }
            i = i + 1;
        }
        proof {
            lemma_find_conn_miss(self.connections@, *a, *b);
        }
        None
    }

    /// Derives and stores the link between two registered components.
    /// Fails with `ComponentMissing` when either endpoint was never added.
    /// The stored connection is derived from the connection type and the
    /// distance between the endpoints; its power draw joins the running
    /// total; a link already stored for the pair is replaced.
    pub fn connect(
        &mut self,
        from: &ComponentId,
        to: &ComponentId,
        connection_type: ConnectionType,
    ) -> (r: Result<(), TopologyError>)
        requires
            old(self).wf(),
            connection_type.valid(),
        ensures
            final(self).wf(),
            final(self).components@ == old(self).components@,
            final(self).total_weight_mg == old(self).total_weight_mg,
            final(self).dimensions_um == old(self).dimensions_um,
            r is Ok <==> (old(self).spec_has_component(*from) && old(self).spec_has_component(
                *to,
            )),
            !old(self).spec_has_component(*from) ==> {
                &&& r == Err::<(), TopologyError>(TopologyError::ComponentMissing(*from))
                &&& final(self).connections@ == old(self).connections@
                &&& final(self).total_power_nw == old(self).total_power_nw
            },
            old(self).spec_has_component(*from) && !old(self).spec_has_component(*to) ==> {
                &&& r == Err::<(), TopologyError>(TopologyError::ComponentMissing(*to))
                &&& final(self).connections@ == old(self).connections@
                &&& final(self).total_power_nw == old(self).total_power_nw
            },
            r is Ok ==> ({
                let d = spec_distance_um(
                    spec_component_of(old(self).components@, *from).position,
                    spec_component_of(old(self).components@, *to).position,
                );
                &&& (find_conn(final(self).connections@, *from, *to) matches Some(c)
                    && c.derived_from(connection_type, d as int))
                &&& final(self).total_power_nw == sat_add_u64(
                    old(self).total_power_nw as int,
                    spec_link_power_nw(connection_type, d as int),
                )
                &&& forall|a: ComponentId, b: ComponentId|
                    !same_pair(a, b, *from, *to) ==> #[trigger] find_conn(
                        final(self).connections@,
                        a,
                        b,
                    ) == find_conn(old(self).connections@, a, b)
            }),
    {
        let i_from = match self.find_component(from) {
            Some(i) => i,
            None => {
                return Err(TopologyError::ComponentMissing(*from));
            },
        };
        let i_to = match self.find_component(to) {
            Some(i) => i,
            None => {
                return Err(TopologyError::ComponentMissing(*to));
            },
        };
        proof {
            let ghost s = self.components@;
            let j = choose|j: int| 0 <= j < s.len() && s[j].id == *from;
            assert(s[i_from as int].id == s[j].id);
            assert(i_from as int == j);
            let k = choose|k: int| 0 <= k < s.len() && s[k].id == *to;
            assert(i_to as int == k);
        }
        let distance = self.components[i_from].position.distance_to(
            &self.components[i_to].position,
        );
        let connection = derive_connection(connection_type, distance);
        self.total_power_nw = sat_add(self.total_power_nw, connection.power_nw);
        let entry = ConnectionEntry { from: *from, to: *to, connection };

        // Locate an existing link for the unordered pair.
        let existing = self.find_link_index(from, to);

        if let Some(i) = existing {
            let ghost before = self.connections@;
            self.connections[i] = entry;
            proof {
                assert(entry_links(before[i as int], *from, *to));
                lemma_find_conn_hit(self.connections@, *from, *to, i as int);
                assert forall|a: ComponentId, b: ComponentId|
                    !same_pair(a, b, *from, *to) implies #[trigger] find_conn(
                    self.connections@,
                    a,
                    b,
                ) == find_conn(before, a, b) by {
                    assert(!entry_links(before[i as int], a, b));
                    assert(!entry_links(entry, a, b));
                    lemma_find_conn_frame(self.connections@, before, a, b);
                }
                assert forall|k: int, l: int|
                    0 <= k < l < self.connections@.len() implies !entry_links(
                    #[trigger] self.connections@[k],
                    (#[trigger] self.connections@[l]).from,
                    self.connections@[l].to,
                ) by {
                    if k != i && l != i {
                        assert(!entry_links(before[k], before[l].from, before[l].to));
                    } else if l == i {
                        assert(!entry_links(before[k], before[l].from, before[l].to));
                        assert(entry_links(before[l], *from, *to));
                    } else {
                        assert(!entry_links(before[k], before[l].from, before[l].to));
                        assert(entry_links(before[k], *from, *to));
                    }
                }
            }
        } else {
            let ghost before = self.connections@;
            self.connections.push(entry);
            proof {
                lemma_find_conn_miss(before, *from, *to);
                lemma_find_conn_push(before, entry, *from, *to);
                assert forall|a: ComponentId, b: ComponentId|
                    !same_pair(a, b, *from, *to) implies #[trigger] find_conn(
                    self.connections@,
                    a,
                    b,
                ) == find_conn(before, a, b) by {
                    assert(!entry_links(entry, a, b));
                    lemma_find_conn_push(before, entry, a, b);
                }
                assert forall|k: int, l: int|
                    0 <= k < l < self.connections@.len() implies !entry_links(
                    #[trigger] self.connections@[k],
                    (#[trigger] self.connections@[l]).from,
                    self.connections@[l].to,
                ) by {
                    if l < before.len() {
                        assert(!entry_links(before[k], before[l].from, before[l].to));
                    } else {
                        assert(self.connections@[l] == entry);
                        assert(!entry_links(before[k], *from, *to));
                    }
                }
            }
        }
        Ok(())
    }
}

} // verus!

verus! {

/// A connected path's latency is bounded by its hop count times the
/// largest one-hop latency.
pub proof fn lemma_path_latency_bounds(t: PhysicalTopology, path: Seq<ComponentId>)
    requires
        t.wf(),
        spec_hops_connected(t.connections@, path),
    ensures
        0 <= spec_path_latency_ps(t.connections@, path),
        path.len() >= 1 ==> spec_path_latency_ps(t.connections@, path) <= (path.len() - 1)
            * 1_050_000_000,
    decreases path.len(),
{
    if path.len() >= 2 {
        let pre = path.drop_last();
        assert forall|i: int|
            0 <= i < pre.len() - 1 implies (#[trigger] find_conn(t.connections@, pre[i], pre[i + 1]))
            is Some by {
            assert(pre[i] == path[i] && pre[i + 1] == path[i + 1]);
            assert(find_conn(t.connections@, path[i], path[i + 1]) is Some);
        }
        lemma_path_latency_bounds(t, pre);
        let k = path.len() - 2;
        assert(find_conn(t.connections@, path[k], path[k + 1]) is Some);
        assert(find_conn(t.connections@, path[path.len() - 2], path[path.len() - 1]) is Some);
        lemma_find_conn_wf(t, path[path.len() - 2], path[path.len() - 1]);
        lemma_conn_latency_bound(
            find_conn(t.connections@, path[path.len() - 2], path[path.len() - 1]).unwrap(),
        );
    }
}

/// A path's reliability stays between zero and full certainty.
pub proof fn lemma_path_reliability_bounds(t: PhysicalTopology, path: Seq<ComponentId>)
    requires
        t.wf(),
        spec_hops_connected(t.connections@, path),
    ensures
        0 <= spec_path_reliability_ppt(t.connections@, path) <= SCALE_PPT,
    decreases path.len(),
{
    if path.len() >= 2 {
        let pre = path.drop_last();
        assert forall|i: int|
            0 <= i < pre.len() - 1 implies (#[trigger] find_conn(t.connections@, pre[i], pre[i + 1]))
            is Some by {
            assert(pre[i] == path[i] && pre[i + 1] == path[i + 1]);
            assert(find_conn(t.connections@, path[i], path[i + 1]) is Some);
        }
        lemma_path_reliability_bounds(t, pre);
        let k = path.len() - 2;
        assert(find_conn(t.connections@, path[k], path[k + 1]) is Some);
        let c = find_conn(t.connections@, path[path.len() - 2], path[path.len() - 1]).unwrap();
        assert(find_conn(t.connections@, path[path.len() - 2], path[path.len() - 1]) is Some);
        lemma_find_conn_wf(t, path[path.len() - 2], path[path.len() - 1]);
        lemma_pow_frac_ppt_bounds(
            SCALE_PPT - c.error_rate_atto / 1_000_000,
            BITS_PER_MESSAGE as nat,
        );
        let p = spec_path_reliability_ppt(t.connections@, pre);
        let h = spec_conn_reliability_ppt(c);
        assert(0 <= p * h / (SCALE_PPT as int) <= SCALE_PPT) by (nonlinear_arith)
            requires
                0 <= p <= SCALE_PPT,
                0 <= h <= SCALE_PPT,
        ;
    }
}

impl PhysicalTopology {
    /// Total latency over a path, in picoseconds: the sum of each hop's
    /// connection latency, with either storage order of a hop accepted.
    /// Fails with `PathTooShort` under two components and with
    /// `NoConnection` on the first hop with no stored link.
    pub fn get_path_latency(&self, path: &[ComponentId]) -> (r: Result<u128, TopologyError>)
        requires
            self.wf(),
        ensures
            path@.len() < 2 ==> r == Err::<u128, TopologyError>(TopologyError::PathTooShort),
            r is Ok ==> path@.len() >= 2 && spec_hops_connected(self.connections@, path@)
                && r.unwrap() == spec_path_latency_ps(self.connections@, path@),
            path@.len() >= 2 && spec_hops_connected(self.connections@, path@) ==> r is Ok,
            path@.len() >= 2 ==> (r matches Err(e) ==> (e matches TopologyError::NoConnection(
                a,
                b,
            )
                && exists|i: int|
                {
                    &&& 0 <= i < path@.len() - 1
                    &&& #[trigger] path@[i] == a
                    &&& path@[i + 1] == b
                    &&& find_conn(self.connections@, a, b) is None
                })),
    {
        if path.len() < 2 {
            return Err(TopologyError::PathTooShort);
        }
        let mut total: u128 = 0;
        let mut i: usize = 0;
        while i < path.len() - 1
            invariant
                self.wf(),
                path@.len() >= 2,
                i <= path@.len() - 1,
                spec_hops_connected(self.connections@, path@.take(i + 1)),
                total == spec_path_latency_ps(self.connections@, path@.take(i + 1)),
                total <= i * 1_050_000_000,
            decreases path@.len() - 1 - i,
        {
            let hop = match self.lookup_connection(&path[i], &path[i + 1]) {
                Some(c) => c,
                None => {
                    return Err(TopologyError::NoConnection(path[i], path[i + 1]));
                },
            };
            proof {
                lemma_find_conn_wf(*self, path@[i as int], path@[i as int + 1]);
                lemma_conn_latency_bound(hop);
                let pre = path@.take(i + 2);
                assert(pre.drop_last() =~= path@.take(i + 1));
                assert(pre[pre.len() - 2] == path@[i as int] && pre[pre.len() - 1] == path@[i as int
                    + 1]);
                assert forall|j: int|
                    0 <= j < pre.len() - 1 implies (#[trigger] find_conn(
                    self.connections@,
                    pre[j],
                    pre[j + 1],
                )) is Some by {
                    assert(pre[j] == path@.take(i + 1)[j] || j == i);
                    if j < i {
                        assert(pre[j] == path@.take(i + 1)[j] && pre[j + 1] == path@.take(i + 1)[j
                            + 1]);
                        assert(find_conn(self.connections@, path@.take(i + 1)[j], path@.take(i + 1)[j
                            + 1]) is Some);
                    }
                }
                assert((i as int) * 1_050_000_000 + 1_050_000_000 <= (i as int + 1)
                    * 1_050_000_000) by (nonlinear_arith);
                assert((i as int + 1) * 1_050_000_000 <= 0xffff_ffff_ffff_ffffint * 1_050_000_000)
                    by (nonlinear_arith)
                    requires
                        i as int + 1 <= 0xffff_ffff_ffff_ffffint,
                ;
            }
            total = total + (hop.calculate_latency() as u128);
            i = i + 1;
        }
        proof {
            assert(path@.take(i + 1) =~= path@);
        }
        Ok(total)
    }

    /// Reliability of a path as parts per trillion of certainty: each
    /// hop's message reliability multiplied in as a fraction. The result
    /// is at most `SCALE_PPT` (full certainty). Failures are as for
    /// `get_path_latency`.
    pub fn get_path_reliability(&self, path: &[ComponentId]) -> (r: Result<u64, TopologyError>)
        requires
            self.wf(),
        ensures
            path@.len() < 2 ==> r == Err::<u64, TopologyError>(TopologyError::PathTooShort),
            r is Ok ==> path@.len() >= 2 && spec_hops_connected(self.connections@, path@)
                && r.unwrap() == spec_path_reliability_ppt(self.connections@, path@) && r.unwrap()
                <= SCALE_PPT,
            path@.len() >= 2 && spec_hops_connected(self.connections@, path@) ==> r is Ok,
            path@.len() >= 2 ==> (r matches Err(e) ==> (e matches TopologyError::NoConnection(
                a,
                b,
            )
                && exists|i: int|
                {
                    &&& 0 <= i < path@.len() - 1
                    &&& #[trigger] path@[i] == a
                    &&& path@[i + 1] == b
                    &&& find_conn(self.connections@, a, b) is None
                })),
    {
        if path.len() < 2 {
            return Err(TopologyError::PathTooShort);
        }
        let mut total: u64 = SCALE_PPT;
        let mut i: usize = 0;
        while i < path.len() - 1
            invariant
                self.wf(),
                path@.len() >= 2,
                i <= path@.len() - 1,
                spec_hops_connected(self.connections@, path@.take(i + 1)),
                total == spec_path_reliability_ppt(self.connections@, path@.take(i + 1)),
                total <= SCALE_PPT,
            decreases path@.len() - 1 - i,
        {
            let hop = match self.lookup_connection(&path[i], &path[i + 1]) {
                Some(c) => c,
                None => {
                    return Err(TopologyError::NoConnection(path[i], path[i + 1]));
                },
            };
            proof {
                lemma_find_conn_wf(*self, path@[i as int], path@[i as int + 1]);
            }
            let hop_rel = hop.calculate_reliability();
            proof {
                let pre = path@.take(i + 2);
                assert(pre.drop_last() =~= path@.take(i + 1));
                assert(pre[pre.len() - 2] == path@[i as int] && pre[pre.len() - 1] == path@[i as int
                    + 1]);
                assert forall|j: int|
                    0 <= j < pre.len() - 1 implies (#[trigger] find_conn(
                    self.connections@,
                    pre[j],
                    pre[j + 1],
                )) is Some by {
                    if j < i {
                        assert(pre[j] == path@.take(i + 1)[j] && pre[j + 1] == path@.take(i + 1)[j
                            + 1]);
                        assert(find_conn(self.connections@, path@.take(i + 1)[j], path@.take(i + 1)[j
                            + 1]) is Some);
                    }
                }
                assert(0 <= (total as int) * (hop_rel as int) / (SCALE_PPT as int) <= SCALE_PPT)
                    by (nonlinear_arith)
                    requires
                        0 <= total <= SCALE_PPT,
                        0 <= hop_rel <= SCALE_PPT,
                ;
            }
            total = (((total as u128) * (hop_rel as u128)) / (SCALE_PPT as u128)) as u64;
            i = i + 1;
        }
        proof {
            assert(path@.take(i + 1) =~= path@);
        }
        Ok(total)
    }
}

} // verus!

verus! {

/// Lookups do not depend on the order of the queried pair.
pub proof fn lemma_find_conn_symmetric(s: Seq<ConnectionEntry>, a: ComponentId, b: ComponentId)
    ensures
        find_conn(s, a, b) == find_conn(s, b, a),
    decreases s.len(),
{
    if s.len() > 0 {
        lemma_find_conn_symmetric(s.drop_first(), a, b);
    }
}

/// Latency is additive: over a three-component path whose two hops are
/// both connected, the path latency is the sum of the two one-hop path
/// latencies.
pub proof fn lemma_path_latency_additive(
    t: PhysicalTopology,
    a: ComponentId,
    b: ComponentId,
    c: ComponentId,
)
    requires
        t.wf(),
        find_conn(t.connections@, a, b) is Some,
        find_conn(t.connections@, b, c) is Some,
    ensures
        spec_path_latency_ps(t.connections@, seq![a, b, c]) == spec_path_latency_ps(
            t.connections@,
            seq![a, b],
        ) + spec_path_latency_ps(t.connections@, seq![b, c]),
{
    let whole = seq![a, b, c];
    assert(whole.drop_last() =~= seq![a, b]);
    assert(seq![a, b].drop_last() =~= seq![a]);
    assert(seq![b, c].drop_last() =~= seq![b]);
    assert(spec_path_latency_ps(t.connections@, seq![a]) == 0);
    assert(spec_path_latency_ps(t.connections@, seq![b]) == 0);
}

/// Reliability is multiplicative: over a three-component path whose two
/// hops are both connected, the path reliability is the product of the two
/// one-hop path reliabilities, as fractions of the scale.
pub proof fn lemma_path_reliability_multiplicative(
    t: PhysicalTopology,
    a: ComponentId,
    b: ComponentId,
    c: ComponentId,
)
    requires
        t.wf(),
        find_conn(t.connections@, a, b) is Some,
        find_conn(t.connections@, b, c) is Some,
    ensures
        spec_path_reliability_ppt(t.connections@, seq![a, b, c]) == spec_path_reliability_ppt(
            t.connections@,
            seq![a, b],
        ) * spec_path_reliability_ppt(t.connections@, seq![b, c]) / (SCALE_PPT as int),
{
    let whole = seq![a, b, c];
    assert(whole.drop_last() =~= seq![a, b]);
    assert(seq![a, b].drop_last() =~= seq![a]);
    assert(seq![b, c].drop_last() =~= seq![b]);
    let rab = spec_conn_reliability_ppt(find_conn(t.connections@, a, b).unwrap());
    let rbc = spec_conn_reliability_ppt(find_conn(t.connections@, b, c).unwrap());
    assert(spec_path_reliability_ppt(t.connections@, seq![a]) == SCALE_PPT as int);
    assert(spec_path_reliability_ppt(t.connections@, seq![b]) == SCALE_PPT as int);
    assert(seq![a, b][0] == a && seq![a, b][1] == b);
    assert(seq![b, c][0] == b && seq![b, c][1] == c);
    assert(spec_path_reliability_ppt(t.connections@, seq![a, b]) == (SCALE_PPT as int) * rab / (
    SCALE_PPT as int));
    assert(spec_path_reliability_ppt(t.connections@, seq![b, c]) == (SCALE_PPT as int) * rbc / (
    SCALE_PPT as int));
    lemma_find_conn_wf(t, a, b);
    lemma_find_conn_wf(t, b, c);
    let cab = find_conn(t.connections@, a, b).unwrap();
    let cbc = find_conn(t.connections@, b, c).unwrap();
    lemma_pow_frac_ppt_bounds(SCALE_PPT - cab.error_rate_atto / 1_000_000, BITS_PER_MESSAGE as nat);
    lemma_pow_frac_ppt_bounds(SCALE_PPT - cbc.error_rate_atto / 1_000_000, BITS_PER_MESSAGE as nat);
    assert((SCALE_PPT as int) * rab / (SCALE_PPT as int) == rab) by (nonlinear_arith)
        requires
            0 <= rab <= SCALE_PPT,
    ;
    assert((SCALE_PPT as int) * rbc / (SCALE_PPT as int) == rbc) by (nonlinear_arith)
        requires
            0 <= rbc <= SCALE_PPT,
    ;
}

impl PhysicalTopology {
    /// Dijkstra's algorithm over the connection graph, weighted by one-hop
    /// latency. Returns a path from `from` to `to` whose consecutive pairs
    /// are all connected, or `None` when either endpoint is unregistered or
    /// no path was found.
    pub fn find_shortest_path(&self, from: &ComponentId, to: &ComponentId) -> (r: Option<
        Vec<ComponentId>,
    >)
        requires
            self.wf(),
        ensures
            (!self.spec_has_component(*from) || !self.spec_has_component(*to)) ==> r is None,
            r matches Some(p) ==> {
                &&& p@.len() >= 1
                &&& p@[0] == *from
                &&& p@[p@.len() - 1] == *to
                &&& spec_hops_connected(self.connections@, p@)
                &&& forall|i: int| 0 <= i < p@.len() ==> self.spec_has_component(#[trigger] p@[i])
            },
            r matches Some(p) ==> forall|q: Seq<ComponentId>|
                spec_registered_path(*self, q) && q[0] == *from && q.last() == *to
                    ==> spec_path_latency_ps(self.connections@, p@)
                    <= #[trigger] spec_path_latency_ps(self.connections@, q),
            spec_route_exists(*self, *from, *to) ==> r is Some,
            *from == *to ==> (r matches Some(p) ==> p@.len() == 1),
    {
        let n = self.components.len();
        let i_from = match self.find_component(from) {
            Some(i) => i,
            None => {
                proof {
                    assert forall|q: Seq<ComponentId>|
                        !(spec_registered_path(*self, q) && q[0] == *from && q.last() == *to) by {
                        if spec_registered_path(*self, q) && q[0] == *from {
                            assert(self.spec_has_component(q[0]));
                        }
                    }
                }
                return None;
            },
        };
        let i_to = match self.find_component(to) {
            Some(i) => i,
            None => {
                proof {
                    assert forall|q: Seq<ComponentId>|
                        !(spec_registered_path(*self, q) && q[0] == *from && q.last() == *to) by {
                        if spec_registered_path(*self, q) && q.last() == *to {
                            assert(self.spec_has_component(q[q.len() - 1]));
                        }
                    }
                }
                return None;
            },
        };

        if i_from == i_to {
            // The one-component path; no path costs less than nothing.
            proof {
                assert forall|q: Seq<ComponentId>|
                    spec_registered_path(*self, q) && q[0] == *from && q.last() == *to
                        implies 0 <= #[trigger] spec_path_latency_ps(self.connections@, q) by {
                    lemma_path_latency_bounds(*self, q);
                }
            }
            let mut p: Vec<ComponentId> = Vec::new();
            p.push(self.components[i_to].id);
            return Some(p);
        }

        let infinity: u128 = 0xffff_ffff_ffff_ffff_ffff_ffff_ffff_ffff;
        let mut dist: Vec<u128> = Vec::new();
        let mut visited: Vec<bool> = Vec::new();
        let mut paths: Vec<Vec<ComponentId>> = Vec::new();
        let mut k: usize = 0;
        while k < n
            invariant
                dist@.len() == k,
                visited@.len() == k,
                paths@.len() == k,
                k <= n,
                forall|j: int| 0 <= j < k ==> #[trigger] dist@[j] == infinity,
                forall|j: int| 0 <= j < k ==> !(#[trigger] visited@[j]),
                infinity == 0xffff_ffff_ffff_ffff_ffff_ffff_ffff_ffffu128,
            decreases n - k,
        {
            dist.push(infinity);
            visited.push(false);
            paths.push(Vec::new());
            k = k + 1;
        }
        dist[i_from] = 0;
        let mut start_path: Vec<ComponentId> = Vec::new();
        start_path.push(self.components[i_from].id);
        paths[i_from] = start_path;

        let ghost from_id = self.components@[i_from as int].id;
        let ghost to_id = self.components@[i_to as int].id;
        proof {
            assert(from_id == *from && to_id == *to);
            assert(spec_count_visited(visited@) == 0) by {
                lemma_count_all_clear(visited@);
            }
        }

        let mut found = false;
        let mut exhausted = false;
        let mut rounds: usize = 0;
        while rounds < n && !found && !exhausted
            invariant
                self.wf(),
                dist@.len() == n,
                visited@.len() == n,
                paths@.len() == n,
                n == self.components@.len(),
                i_from < n,
                i_to < n,
                i_from != i_to,
                rounds <= n,
                infinity == 0xffff_ffff_ffff_ffff_ffff_ffff_ffff_ffffu128,
                from_id == self.components@[i_from as int].id,
                to_id == self.components@[i_to as int].id,
                from_id == *from,
                to_id == *to,
                dist@[i_from as int] == 0,
                !visited@[i_to as int],
                forall|v: int| 0 <= v < n && #[trigger] visited@[v] ==> dist@[v] < infinity,
                forall|v: int|
                    0 <= v < n && #[trigger] dist@[v] < infinity ==> dist@[v] <= (rounds + 1)
                        * 1_050_000_000,
                forall|x: int, y: int|
                    0 <= x < n && 0 <= y < n && visited@[x] && !visited@[y]
                        ==> #[trigger] dist@[x] <= #[trigger] dist@[y],
                dijkstra_edge_inv(*self, dist@, visited@),
                dijkstra_settled_inv(*self, dist@, visited@, i_from as int),
                forall|v: int|
                    0 <= v < n && (#[trigger] dist@[v]) < infinity ==> witness_path_ok(
                        *self,
                        from_id,
                        self.components@[v].id,
                        paths@[v]@,
                        dist@[v] as int,
                    ),
                found ==> dist@[i_to as int] < infinity && spec_dist_optimal(
                    *self,
                    dist@[i_to as int] as int,
                    from_id,
                    to_id,
                ),
                exhausted ==> forall|v: int|
                    0 <= v < n && (#[trigger] dist@[v]) < infinity ==> visited@[v],
                found || exhausted || spec_count_visited(visited@) == rounds,
            decreases n - rounds,
        {
            // Select the unsettled component with the least distance.
            let mut u: usize = n;
            let mut best: u128 = infinity;
            let mut j: usize = 0;
            while j < n
                invariant
                    dist@.len() == n,
                    visited@.len() == n,
                    j <= n,
                    u <= n,
                    infinity == 0xffff_ffff_ffff_ffff_ffff_ffff_ffff_ffffu128,
                    u == n ==> best == infinity && forall|j2: int|
                        0 <= j2 < j && !visited@[j2] ==> #[trigger] dist@[j2] == infinity,
                    u < n ==> !visited@[u as int] && dist@[u as int] == best && best < infinity
                        && forall|j2: int|
                        0 <= j2 < j && !visited@[j2] ==> #[trigger] dist@[j2] >= best,
                decreases n - j,
            {
                if !visited[j] && dist[j] < best {
                    best = dist[j];
                    u = j;
                }
                j = j + 1;
            }
            if u == n {
                // Every component still unsettled is unreachable so far.
                exhausted = true;
            } else {
                proof {
                    assert forall|k2: int|
                        0 <= k2 < n && !visited@[k2] implies dist@[u as int]
                        <= #[trigger] dist@[k2] by {
                        if dist@[k2] == infinity {
                            assert(dist@[u as int] < infinity);
                        }
                    }
                    lemma_settle_optimal(*self, dist@, visited@, i_from as int, u as int);
                }
                if u == i_to {
                    found = true;
                } else {
                    let ghost vis_before = visited@;
                    visited[u] = true;
                    proof {
                        lemma_count_update_true(vis_before, u as int);
                        assert forall|v: int|
                            0 <= v < n && #[trigger] visited@[v] implies spec_dist_optimal(
                            *self,
                            dist@[v] as int,
                            self.components@[i_from as int].id,
                            self.components@[v].id,
                        ) by {
                            if v != u as int {
                                assert(vis_before[v]);
                            }
                        }
                        assert forall|v: int|
                            0 <= v < n && #[trigger] visited@[v] implies dist@[v] <= dist@[u as int] by {
                            if v != u as int {
                                assert(vis_before[v] && !vis_before[u as int]);
                            }
                        }
                    }

                    // Relax every link incident to the selected component.
                    let uid = self.components[u].id;
                    let du = dist[u];
                    let ghost dist_at_entry = dist@;
                    let mut c: usize = 0;
                    while c < self.connections.len()
                        invariant
                            self.wf(),
                            dist@.len() == n,
                            visited@.len() == n,
                            paths@.len() == n,
                            n == self.components@.len(),
                            u < n,
                            i_from < n,
                            rounds < n,
                            visited@[u as int],
                            uid == self.components@[u as int].id,
                            du == dist@[u as int],
                            du < infinity,
                            du <= (rounds + 1) * 1_050_000_000,
                            c <= self.connections@.len(),
                            infinity == 0xffff_ffff_ffff_ffff_ffff_ffff_ffff_ffffu128,
                            from_id == self.components@[i_from as int].id,
                            dist@[i_from as int] == 0,
                            forall|v: int|
                                0 <= v < n && #[trigger] visited@[v] ==> dist@[v]
                                    == dist_at_entry[v],
                            forall|v: int|
                                0 <= v < n && #[trigger] visited@[v] ==> dist@[v] < infinity,
                            forall|v: int| 0 <= v < n && #[trigger] visited@[v] ==> dist@[v] <= du,
                            forall|v: int|
                                0 <= v < n && #[trigger] dist@[v] < infinity ==> dist@[v] <= (rounds
                                    + 2) * 1_050_000_000,
                            forall|x: int, y: int|
                                0 <= x < n && 0 <= y < n && visited@[x] && !visited@[y]
                                    ==> #[trigger] dist@[x] <= #[trigger] dist@[y],
                            dijkstra_edge_inv(
                                *self,
                                dist_at_entry,
                                visited@.update(u as int, false),
                            ),
                            forall|v: int| 0 <= v < n ==> #[trigger] dist@[v] <= dist_at_entry[v],
                            dijkstra_settled_inv(*self, dist@, visited@, i_from as int),
                            forall|v: int|
                                0 <= v < n && (#[trigger] dist@[v]) < infinity ==> witness_path_ok(
                                    *self,
                                    from_id,
                                    self.components@[v].id,
                                    paths@[v]@,
                                    dist@[v] as int,
                                ),
                            forall|k2: int, v: int|
                                0 <= k2 < c && 0 <= v < n && entry_links(
                                    #[trigger] self.connections@[k2],
                                    uid,
                                    #[trigger] self.components@[v].id,
                                ) ==> dist@[v] <= du + spec_conn_latency_ps(
                                    self.connections@[k2].connection,
                                ),
                        decreases self.connections@.len() - c,
                    {
                        let ghost conns = self.connections@;
                        let ghost comps = self.components@;
                        let entry = &self.connections[c];
                        proof {
                            assert(conns[c as int].connection.wf());
                            lemma_conn_latency_bound(conns[c as int].connection);
                            assert((rounds as int + 2) * 1_050_000_000 <= (n as int + 2)
                                * 1_050_000_000) by (nonlinear_arith)
                                requires
                                    rounds < n,
                            ;
                            assert((n as int + 2) * 1_050_000_000
                                < 0xffff_ffff_ffff_ffff_0000_0000_0000_0000int)
                                by (nonlinear_arith)
                                requires
                                    n as int <= 0xffff_ffff_ffff_ffffint,
                            ;
                        }
                        let other = if entry.from == uid {
                            Some(entry.to)
                        } else if entry.to == uid {
                            Some(entry.from)
                        } else {
                            None
                        };
                        let ghost dist_before = dist@;
                        if let Some(other_id) = other {
                            match self.find_component(&other_id) {
                                Some(v) => {
                                    let hop = self.connections[c].connection.calculate_latency()
                                        as u128;
                                    proof {
                                        assert(hop == spec_conn_latency_ps(
                                            conns[c as int].connection,
                                        ));
                                        assert(hop <= 1_050_000_000);
                                    }
                                    if !visited[v] && du <= infinity - hop {
                                        let candidate = du + hop;
                                        if candidate < dist[v] {
                                            dist[v] = candidate;
                                            let mut witness = copy_ids(&paths[u]);
                                            witness.push(self.components[v].id);
                                            paths[v] = witness;
                                            proof {
                                                lemma_find_conn_of_entry(
                                                    *self,
                                                    c as int,
                                                    uid,
                                                    comps[v as int].id,
                                                );
                                                assert((rounds as int + 1) * 1_050_000_000
                                                    + 1_050_000_000 <= (rounds as int + 2)
                                                    * 1_050_000_000) by (nonlinear_arith);
                                                // The extended witness path stays valid.
                                                let wp = paths@[v as int]@;
                                                let base = dist_before[u as int];
                                                assert(witness_path_ok(
                                                    *self,
                                                    from_id,
                                                    comps[u as int].id,
                                                    paths@[u as int]@,
                                                    du as int,
                                                ));
                                                assert(wp.drop_last() =~= paths@[u as int]@);
                                                assert(wp[wp.len() - 2] == comps[u as int].id);
                                                assert(wp[wp.len() - 1] == comps[v as int].id);
                                                assert(find_conn(conns, comps[u as int].id,
                                                    comps[v as int].id).unwrap()
                                                    == conns[c as int].connection);
                                                assert(spec_path_latency_ps(conns, wp)
                                                    == spec_path_latency_ps(
                                                    conns,
                                                    paths@[u as int]@,
                                                ) + hop);
                                                assert forall|i2: int|
                                                    0 <= i2 < wp.len()
                                                        implies self.spec_has_component(
                                                    #[trigger] wp[i2]) by {
                                                    if i2 < wp.len() - 1 {
                                                        assert(wp[i2] == paths@[u as int]@[i2]);
                                                    }
                                                }
                                                assert forall|i2: int|
                                                    0 <= i2 < wp.len() - 1 implies (
                                                #[trigger] find_conn(conns, wp[i2], wp[i2 + 1]))
                                                    is Some by {
                                                    if i2 < wp.len() - 2 {
                                                        assert(wp[i2] == paths@[u as int]@[i2]);
                                                        assert(wp[i2 + 1] == paths@[u as int]@[i2
                                                            + 1]);
                                                        assert(find_conn(
                                                            conns,
                                                            paths@[u as int]@[i2],
                                                            paths@[u as int]@[i2 + 1],
                                                        ) is Some);
                                                    }
                                                }
                                                assert(witness_path_ok(
                                                    *self,
                                                    from_id,
                                                    comps[v as int].id,
                                                    wp,
                                                    dist@[v as int] as int,
                                                ));
                                            }
                                        }
                                    }
                                    proof {
                                        lemma_relax_step(
                                            *self,
                                            dist_before,
                                            dist@,
                                            visited@,
                                            i_from as int,
                                            v as int,
                                        );
                                        // The processed entry now bounds its far end.
                                        assert forall|v2: int|
                                            0 <= v2 < n && entry_links(
                                                conns[c as int],
                                                uid,
                                                #[trigger] comps[v2].id,
                                            ) implies dist@[v2] <= du + spec_conn_latency_ps(
                                            conns[c as int].connection,
                                        ) by {
                                            let e = conns[c as int];
                                            if comps[v2].id == uid {
                                                assert(comps[v2].id == comps[u as int].id);
                                                assert(v2 == u as int);
                                                assert(dist@[v2] == du);
                                            } else {
                                                assert(comps[v2].id == other_id);
                                                assert(comps[v2].id == comps[v as int].id);
                                                assert(v2 == v as int);
                                                if visited@[v2] {
                                                    assert(dist@[v2] <= du);
                                                }
                                            }
                                        }
                                    }
                                },
                                None => {
                                    proof {
                                        assert forall|v2: int|
                                            0 <= v2 < n && entry_links(
                                                conns[c as int],
                                                uid,
                                                #[trigger] comps[v2].id,
                                            ) implies dist@[v2] <= du + spec_conn_latency_ps(
                                            conns[c as int].connection,
                                        ) by {
                                            if comps[v2].id == uid {
                                                assert(v2 == u as int);
                                                assert(dist@[v2] == du);
                                            } else {
                                                assert(comps[v2].id == other_id);
                                                assert(has_component_in(comps, other_id));
                                                assert(false);
                                            }
                                        }
                                    }
                                },
                            }
                        } else {
                            proof {
                                assert forall|v2: int|
                                    0 <= v2 < n && entry_links(
                                        conns[c as int],
                                        uid,
                                        #[trigger] comps[v2].id,
                                    ) implies dist@[v2] <= du + spec_conn_latency_ps(
                                    conns[c as int].connection,
                                ) by {
                                    assert(conns[c as int].from != uid && conns[c as int].to
                                        != uid);
                                }
                            }
                        }
                        c = c + 1;
                    }
                    proof {
                        assert forall|u2: int, v2: int|
                            0 <= u2 < n && 0 <= v2 < n && visited@[u2] && (#[trigger] find_conn(
                                self.connections@,
                                self.components@[u2].id,
                                self.components@[v2].id,
                            )) is Some implies dist@[v2] <= dist@[u2] + spec_conn_latency_ps(
                            find_conn(
                                self.connections@,
                                self.components@[u2].id,
                                self.components@[v2].id,
                            ).unwrap(),
                        ) by {
                            if u2 == u as int {
                                lemma_find_conn_is_stored(
                                    self.connections@,
                                    self.components@[u2].id,
                                    self.components@[v2].id,
                                );
                                let k2 = choose|k2: int|
                                    0 <= k2 < self.connections@.len() && (
                                    #[trigger] self.connections@[k2]).connection == find_conn(
                                        self.connections@,
                                        self.components@[u2].id,
                                        self.components@[v2].id,
                                    ).unwrap() && entry_links(
                                        self.connections@[k2],
                                        self.components@[u2].id,
                                        self.components@[v2].id,
                                    );
                                assert(entry_links(
                                    self.connections@[k2],
                                    uid,
                                    self.components@[v2].id,
                                ));
                            } else {
                                assert(visited@.update(u as int, false)[u2]);
                                assert(dist_at_entry[u2] == dist@[u2]);
                                assert(dist@[v2] <= dist_at_entry[v2]);
                                assert(dist_at_entry[v2] <= dist_at_entry[u2]
                                    + spec_conn_latency_ps(
                                    find_conn(
                                        self.connections@,
                                        self.components@[u2].id,
                                        self.components@[v2].id,
                                    ).unwrap(),
                                ));
                            }
                        }
                    }
                }
            }
            rounds = rounds + 1;
        }

        if !found {
            proof {
                if !exhausted {
                    // Every complete round settles a fresh component, and
                    // the target is never settled, so the rounds cannot
                    // have run out.
                    lemma_count_missing(visited@, i_to as int);
                    assert(false);
                }
                assert(dist@[i_to as int] == infinity);
                assert forall|q: Seq<ComponentId>|
                    !(spec_registered_path(*self, q) && q[0] == *from && q.last() == *to) by {
                    if spec_registered_path(*self, q) && q[0] == *from && q.last() == *to {
                        lemma_reachable_is_finite(
                            *self,
                            dist@,
                            visited@,
                            i_from as int,
                            i_to as int,
                            q,
                            0,
                        );
                    }
                }
            }
            return None;
        }

        // The witness path recorded for the destination is the answer.
        let result = paths.remove(i_to);
        proof {
            assert(witness_path_ok(*self, from_id, to_id, result@, dist@[i_to as int] as int));
            assert(result@[result@.len() - 1] == to_id);
            assert forall|q: Seq<ComponentId>|
                spec_registered_path(*self, q) && q[0] == *from && q.last() == *to
                    implies spec_path_latency_ps(self.connections@, result@)
                    <= #[trigger] spec_path_latency_ps(self.connections@, q) by {
                assert(dist@[i_to as int] as int <= spec_path_latency_ps(self.connections@, q));
            }
        }
        Some(result)
    }
}

} // verus!

verus! {

/// A copy of a component-id list.
fn copy_ids(v: &Vec<ComponentId>) -> (r: Vec<ComponentId>)
    ensures
        r@ == v@,
{
    let mut r: Vec<ComponentId> = Vec::new();
    let mut i: usize = 0;
    while i < v.len()
        invariant
            i <= v@.len(),
            r@ == v@.take(i as int),
        decreases v@.len() - i,
    {
        r.push(v[i]);
        proof {
            assert(r@ =~= v@.take(i as int + 1));
        }
        i = i + 1;
    }
    proof {
        assert(v@.take(v@.len() as int) =~= v@);
    }
    r
}

/// A cleared flag sequence counts zero.
proof fn lemma_count_all_clear(s: Seq<bool>)
    requires
        forall|j: int| 0 <= j < s.len() ==> !(#[trigger] s[j]),
    ensures
        spec_count_visited(s) == 0,
    decreases s.len(),
{
    if s.len() > 0 {
        lemma_count_all_clear(s.drop_last());
    }
}

} // verus!

verus! {

/// One relaxation step, which can only lower an unsettled distance,
/// preserves the settled invariant.
proof fn lemma_relax_step(
    t: PhysicalTopology,
    dist_before: Seq<u128>,
    dist_after: Seq<u128>,
    visited: Seq<bool>,
    i_from: int,
    v: int,
)
    requires
        t.wf(),
        dist_before.len() == t.components@.len(),
        dist_after.len() == dist_before.len(),
        visited.len() == dist_before.len(),
        0 <= v < dist_before.len(),
        forall|x: int|
            0 <= x < dist_before.len() && x != v ==> #[trigger] dist_after[x] == dist_before[x],
        dist_after[v] <= dist_before[v],
        dijkstra_settled_inv(t, dist_before, visited, i_from),
        visited[v] ==> dist_after[v] == dist_before[v],
    ensures
        dijkstra_settled_inv(t, dist_after, visited, i_from),
{
    assert forall|x: int|
        0 <= x < dist_after.len() && #[trigger] visited[x] implies spec_dist_optimal(
        t,
        dist_after[x] as int,
        t.components@[i_from].id,
        t.components@[x].id,
    ) by {
        assert(dist_after[x] == dist_before[x]);
    }
}

} // verus!

verus! {

impl PhysicalTopology {
    /// The registered component carrying `id`, if any.
    pub fn get_component(&self, id: &ComponentId) -> (r: Option<Component>)
        requires
            self.wf(),
        ensures
            match r {
                Some(c) => self.spec_has_component(*id) && c == spec_component_of(
                    self.components@,
                    *id,
                ) && c.position.wf() && c.id == *id,
                None => !self.spec_has_component(*id),
            },
    {
        match self.find_component(id) {
            Some(i) => {
                proof {
                    let j = choose|j: int|
                        0 <= j < self.components@.len() && self.components@[j].id == *id;
                    assert(self.components@[i as int].id == self.components@[j].id);
                    assert(i as int == j);
                }
                Some(self.components[i].clone())
            },
            None => None,
        }
    }
}

} // verus!

verus! {

impl PhysicalTopology {
    /// An element-for-element copy, for sharing the layout with a
    /// collaborator.
    pub fn duplicate(&self) -> (r: PhysicalTopology)
        ensures
            r.components@ == self.components@,
            r.connections@ == self.connections@,
            r.total_weight_mg == self.total_weight_mg,
            r.total_power_nw == self.total_power_nw,
            r.dimensions_um == self.dimensions_um,
            self.wf() ==> r.wf(),
    {
        let mut components: Vec<Component> = Vec::new();
        let mut i: usize = 0;
        while i < self.components.len()
            invariant
                i <= self.components@.len(),
                components@ == self.components@.take(i as int),
            decreases self.components@.len() - i,
        {
            components.push(self.components[i]);
            proof {
                assert(components@ =~= self.components@.take(i as int + 1));
            }
            i = i + 1;
        }
        proof {
            assert(self.components@.take(self.components@.len() as int) =~= self.components@);
        }
        let mut connections: Vec<ConnectionEntry> = Vec::new();
        let mut k: usize = 0;
        while k < self.connections.len()
            invariant
                k <= self.connections@.len(),
                connections@ == self.connections@.take(k as int),
            decreases self.connections@.len() - k,
        {
            connections.push(self.connections[k]);
            proof {
                assert(connections@ =~= self.connections@.take(k as int + 1));
            }
            k = k + 1;
        }
        proof {
            assert(self.connections@.take(self.connections@.len() as int) =~= self.connections@);
        }
        PhysicalTopology {
            components,
            connections,
            total_weight_mg: self.total_weight_mg,
            total_power_nw: self.total_power_nw,
            dimensions_um: self.dimensions_um,
        }
    }
}

} // verus!

verus! {

/// A path every element of which is a registered component, whose
/// consecutive pairs are all connected.
pub open spec fn spec_registered_path(t: PhysicalTopology, path: Seq<ComponentId>) -> bool {
    &&& path.len() >= 1
    &&& spec_hops_connected(t.connections@, path)
    &&& forall|i: int| 0 <= i < path.len() ==> t.spec_has_component(#[trigger] path[i])
}

/// Some registered connected path leads from `a` to `b`.
pub open spec fn spec_route_exists(t: PhysicalTopology, a: ComponentId, b: ComponentId) -> bool {
    exists|q: Seq<ComponentId>| spec_registered_path(t, q) && q[0] == a && q.last() == b
}

/// The index of the registered component carrying `id`.
pub open spec fn spec_index_of(t: PhysicalTopology, id: ComponentId) -> int {
    choose|i: int| 0 <= i < t.components@.len() && t.components@[i].id == id
}

/// In a well-formed topology the index of a registered id is the one
/// position holding it.
pub proof fn lemma_index_of(t: PhysicalTopology, id: ComponentId)
    requires
        t.wf(),
        t.spec_has_component(id),
    ensures
        0 <= spec_index_of(t, id) < t.components@.len(),
        t.components@[spec_index_of(t, id)].id == id,
        forall|j: int|
            0 <= j < t.components@.len() && (#[trigger] t.components@[j]).id == id ==> j
                == spec_index_of(t, id),
{
    let i = spec_index_of(t, id);
    assert(0 <= i < t.components@.len() && t.components@[i].id == id);
    assert forall|j: int|
        0 <= j < t.components@.len() && (#[trigger] t.components@[j]).id == id implies j == i by {
        if j != i {
            if j < i {
                assert(t.components@[j].id != t.components@[i].id);
            } else {
                assert(t.components@[i].id != t.components@[j].id);
            }
        }
    }
}

/// Dropping the last element of a connected path keeps it connected, and
/// its cost cannot exceed the whole path's.
pub proof fn lemma_path_latency_prefix(t: PhysicalTopology, path: Seq<ComponentId>)
    requires
        t.wf(),
        path.len() >= 2,
        spec_hops_connected(t.connections@, path),
    ensures
        spec_hops_connected(t.connections@, path.drop_last()),
        spec_path_latency_ps(t.connections@, path.drop_last()) <= spec_path_latency_ps(
            t.connections@,
            path,
        ),
{
    let pre = path.drop_last();
    assert forall|i: int|
        0 <= i < pre.len() - 1 implies (#[trigger] find_conn(t.connections@, pre[i], pre[i + 1]))
        is Some by {
        assert(pre[i] == path[i] && pre[i + 1] == path[i + 1]);
        assert(find_conn(t.connections@, path[i], path[i + 1]) is Some);
    }
    let k = path.len() - 2;
    assert(find_conn(t.connections@, path[k], path[k + 1]) is Some);
    lemma_find_conn_wf(t, path[k], path[k + 1]);
    lemma_conn_latency_bound(find_conn(t.connections@, path[k], path[k + 1]).unwrap());
}

/// A connected path taken one element longer costs at least as much.
pub proof fn lemma_path_latency_take_monotone(t: PhysicalTopology, path: Seq<ComponentId>, j: int)
    requires
        t.wf(),
        spec_hops_connected(t.connections@, path),
        0 <= j <= path.len(),
    ensures
        spec_path_latency_ps(t.connections@, path.take(j)) <= spec_path_latency_ps(
            t.connections@,
            path,
        ),
        spec_hops_connected(t.connections@, path.take(j)),
    decreases path.len() - j,
{
    if j == path.len() {
        assert(path.take(j) =~= path);
    } else {
        lemma_path_latency_take_monotone(t, path, j + 1);
        let longer = path.take(j + 1);
        assert forall|i: int|
            0 <= i < longer.len() - 1 implies (#[trigger] find_conn(
            t.connections@,
            longer[i],
            longer[i + 1],
        )) is Some by {
            assert(longer[i] == path[i] && longer[i + 1] == path[i + 1]);
            assert(find_conn(t.connections@, path[i], path[i + 1]) is Some);
        }
        if longer.len() >= 2 {
            lemma_path_latency_prefix(t, longer);
            assert(longer.drop_last() =~= path.take(j));
        } else {
            assert(path.take(j) =~= longer.drop_last());
        }
    }
}

} // verus!

verus! {

/// No path from `from_id` to `to_id` through registered components costs
/// less than `d`.
pub open spec fn spec_dist_optimal(
    t: PhysicalTopology,
    d: int,
    from_id: ComponentId,
    to_id: ComponentId,
) -> bool {
    forall|q: Seq<ComponentId>|
        spec_registered_path(t, q) && q[0] == from_id && q.last() == to_id ==> d
            <= #[trigger] spec_path_latency_ps(t.connections@, q)
}

/// Settled components have relaxed every incident link: a link from a
/// settled component bounds its far end's distance.
pub open spec fn dijkstra_edge_inv(t: PhysicalTopology, dist: Seq<u128>, visited: Seq<bool>) -> bool {
    forall|u: int, v: int|
        0 <= u < dist.len() && 0 <= v < dist.len() && visited[u] && (#[trigger] find_conn(
            t.connections@,
            t.components@[u].id,
            t.components@[v].id,
        )) is Some ==> dist[v] <= dist[u] + spec_conn_latency_ps(
            find_conn(t.connections@, t.components@[u].id, t.components@[v].id).unwrap(),
        )
}

/// Every settled component's distance is optimal.
pub open spec fn dijkstra_settled_inv(
    t: PhysicalTopology,
    dist: Seq<u128>,
    visited: Seq<bool>,
    i_from: int,
) -> bool {
    forall|v: int|
        0 <= v < dist.len() && #[trigger] visited[v] ==> spec_dist_optimal(
            t,
            dist[v] as int,
            t.components@[i_from].id,
            t.components@[v].id,
        )
}

/// Walking a candidate path to its first unsettled component shows the
/// about-to-be-settled minimum cannot beat the path's cost.
proof fn lemma_settle_walk(
    t: PhysicalTopology,
    dist: Seq<u128>,
    visited: Seq<bool>,
    i_from: int,
    u: int,
    q: Seq<ComponentId>,
    j: int,
)
    requires
        t.wf(),
        dist.len() == t.components@.len(),
        visited.len() == dist.len(),
        0 <= i_from < dist.len(),
        0 <= u < dist.len(),
        !visited[u],
        dist[i_from] == 0,
        dijkstra_edge_inv(t, dist, visited),
        dijkstra_settled_inv(t, dist, visited, i_from),
        forall|k: int| 0 <= k < dist.len() && !visited[k] ==> dist[u] <= #[trigger] dist[k],
        spec_registered_path(t, q),
        q[0] == t.components@[i_from].id,
        q.last() == t.components@[u].id,
        0 <= j < q.len(),
        forall|j2: int| 0 <= j2 < j ==> visited[spec_index_of(t, #[trigger] q[j2])],
    ensures
        dist[u] <= spec_path_latency_ps(t.connections@, q),
    decreases q.len() - j,
{
    let c = t.components@;
    let conns = t.connections@;
    assert(t.spec_has_component(q[j]));
    let idj = spec_index_of(t, q[j]);
    lemma_index_of(t, q[j]);
    lemma_path_latency_bounds(t, q);
    if !visited[idj] {
        if j == 0 {
            assert(c[i_from].id == q[0]);
            assert(idj == i_from);
            assert(dist[u] <= dist[i_from]);
        } else {
            assert(t.spec_has_component(q[j - 1]));
            let idp = spec_index_of(t, q[j - 1]);
            lemma_index_of(t, q[j - 1]);
            assert(visited[idp]);
            let i0 = j - 1;
            assert(find_conn(conns, q[i0], q[i0 + 1]) is Some);
            assert(q[i0] == c[idp].id && q[i0 + 1] == c[idj].id);
            assert(find_conn(conns, c[idp].id, c[idj].id) is Some);
            let w = spec_conn_latency_ps(find_conn(conns, c[idp].id, c[idj].id).unwrap());
            assert(dist[idj] <= dist[idp] + w);
            // The settled prefix bounds the cost up to the previous hop.
            let pre = q.take(j);
            lemma_path_latency_take_monotone(t, q, j);
            assert(pre.len() == j >= 1);
            assert(pre[0] == q[0]);
            assert(pre.last() == q[j - 1]);
            assert(pre.last() == c[idp].id);
            assert(spec_registered_path(t, pre)) by {
                assert forall|i: int| 0 <= i < pre.len() implies t.spec_has_component(
                    #[trigger] pre[i],
                ) by {
                    assert(pre[i] == q[i]);
                }
            }
            assert(dist[idp] <= spec_path_latency_ps(conns, pre));
            // One more hop reaches the first unsettled component.
            let ext = q.take(j + 1);
            lemma_path_latency_take_monotone(t, q, j + 1);
            assert(ext.drop_last() =~= pre);
            assert(ext[ext.len() - 2] == q[j - 1] && ext[ext.len() - 1] == q[j]);
            assert(spec_path_latency_ps(conns, ext) == spec_path_latency_ps(conns, pre) + w);
            assert(dist[idj] <= spec_path_latency_ps(conns, ext));
            assert(dist[u] <= dist[idj]);
        }
    } else {
        if j == q.len() - 1 {
            assert(q[j] == c[u].id);
            assert(idj == u);
            assert(false);
        } else {
            lemma_settle_walk(t, dist, visited, i_from, u, q, j + 1);
        }
    }
}

/// Selecting the unsettled component with the least distance makes that
/// distance optimal.
pub proof fn lemma_settle_optimal(
    t: PhysicalTopology,
    dist: Seq<u128>,
    visited: Seq<bool>,
    i_from: int,
    u: int,
)
    requires
        t.wf(),
        dist.len() == t.components@.len(),
        visited.len() == dist.len(),
        0 <= i_from < dist.len(),
        0 <= u < dist.len(),
        !visited[u],
        dist[i_from] == 0,
        dijkstra_edge_inv(t, dist, visited),
        dijkstra_settled_inv(t, dist, visited, i_from),
        forall|k: int| 0 <= k < dist.len() && !visited[k] ==> dist[u] <= #[trigger] dist[k],
    ensures
        spec_dist_optimal(t, dist[u] as int, t.components@[i_from].id, t.components@[u].id),
{
    assert forall|q: Seq<ComponentId>|
        spec_registered_path(t, q) && q[0] == t.components@[i_from].id && q.last()
            == t.components@[u].id implies dist[u] as int <= #[trigger] spec_path_latency_ps(
        t.connections@,
        q,
    ) by {
        lemma_settle_walk(t, dist, visited, i_from, u, q, 0);
    }
}

} // verus!

verus! {

/// In a well-formed topology, a stored entry linking a pair is what the
/// lookup for that pair returns.
pub proof fn lemma_find_conn_of_entry(t: PhysicalTopology, k: int, a: ComponentId, b: ComponentId)
    requires
        t.wf(),
        0 <= k < t.connections@.len(),
        entry_links(t.connections@[k], a, b),
    ensures
        find_conn(t.connections@, a, b) == Some(t.connections@[k].connection),
{
    let conns = t.connections@;
    assert forall|j: int| 0 <= j < k implies !entry_links(#[trigger] conns[j], a, b) by {
        if entry_links(conns[j], a, b) {
            assert(!entry_links(conns[j], conns[k].from, conns[k].to));
        }
    }
    lemma_find_conn_hit(conns, a, b, k);
}

} // verus!

verus! {

/// How many entries of a flag sequence are set.
pub open spec fn spec_count_visited(s: Seq<bool>) -> int
    decreases s.len(),
{
    if s.len() == 0 {
        0
    } else {
        spec_count_visited(s.drop_last()) + if s.last() {
            1int
        } else {
            0int
        }
    }
}

/// Setting a clear flag raises the count by one.
proof fn lemma_count_update_true(s: Seq<bool>, k: int)
    requires
        0 <= k < s.len(),
        !s[k],
    ensures
        spec_count_visited(s.update(k, true)) == spec_count_visited(s) + 1,
    decreases s.len(),
{
    let t = s.update(k, true);
    if k == s.len() - 1 {
        assert(t.drop_last() =~= s.drop_last());
    } else {
        assert(t.drop_last() =~= s.drop_last().update(k, true));
        lemma_count_update_true(s.drop_last(), k);
        assert(t.last() == s.last());
    }
}

/// A sequence with a clear flag counts at most its length minus one.
proof fn lemma_count_missing(s: Seq<bool>, k: int)
    requires
        0 <= k < s.len(),
        !s[k],
    ensures
        spec_count_visited(s) <= s.len() - 1,
    decreases s.len(),
{
    if k == s.len() - 1 {
        lemma_count_at_most(s.drop_last());
    } else {
        lemma_count_missing(s.drop_last(), k);
    }
}

/// A count never exceeds the length.
proof fn lemma_count_at_most(s: Seq<bool>)
    ensures
        spec_count_visited(s) <= s.len(),
    decreases s.len(),
{
    if s.len() > 0 {
        lemma_count_at_most(s.drop_last());
    }
}

/// A witness path recorded for a component: a registered connected path
/// from the source to that component whose latency is the recorded
/// distance.
pub open spec fn witness_path_ok(
    t: PhysicalTopology,
    from_id: ComponentId,
    to_id: ComponentId,
    p: Seq<ComponentId>,
    d: int,
) -> bool {
    &&& spec_registered_path(t, p)
    &&& p[0] == from_id
    &&& p.last() == to_id
    &&& spec_path_latency_ps(t.connections@, p) == d
}

/// When every component of finite distance is settled, the end of any
/// registered connected path out of the source also has finite distance:
/// each hop out of the finite region has been relaxed already.
proof fn lemma_reachable_is_finite(
    t: PhysicalTopology,
    dist: Seq<u128>,
    visited: Seq<bool>,
    i_from: int,
    i_to: int,
    q: Seq<ComponentId>,
    j: int,
)
    requires
        t.wf(),
        dist.len() == t.components@.len(),
        dist.len() <= 0xffff_ffff_ffff_ffff,
        visited.len() == dist.len(),
        0 <= i_from < dist.len(),
        0 <= i_to < dist.len(),
        dist[i_from] == 0,
        dijkstra_edge_inv(t, dist, visited),
        forall|v: int|
            0 <= v < dist.len() && (#[trigger] dist[v]) < 0xffff_ffff_ffff_ffff_ffff_ffff_ffff_ffffu128
                ==> visited[v],
        forall|v: int|
            0 <= v < dist.len() && (#[trigger] dist[v]) < 0xffff_ffff_ffff_ffff_ffff_ffff_ffff_ffffu128
                ==> dist[v] <= (dist.len() + 2) * 1_050_000_000,
        spec_registered_path(t, q),
        q[0] == t.components@[i_from].id,
        q.last() == t.components@[i_to].id,
        0 <= j < q.len(),
        forall|j2: int|
            0 <= j2 < j ==> dist[spec_index_of(t, #[trigger] q[j2])]
                < 0xffff_ffff_ffff_ffff_ffff_ffff_ffff_ffffu128,
    ensures
        dist[i_to] < 0xffff_ffff_ffff_ffff_ffff_ffff_ffff_ffffu128,
    decreases q.len() - j,
{
    let infinity: u128 = 0xffff_ffff_ffff_ffff_ffff_ffff_ffff_ffff;
    let c = t.components@;
    let conns = t.connections@;
    let n = dist.len() as int;
    assert(t.spec_has_component(q[j]));
    let idj = spec_index_of(t, q[j]);
    lemma_index_of(t, q[j]);
    if dist[idj] < infinity {
        if j == q.len() - 1 {
            assert(q[j] == c[i_to].id);
            assert(idj == i_to);
        } else {
            lemma_reachable_is_finite(t, dist, visited, i_from, i_to, q, j + 1);
        }
    } else {
        if j == 0 {
            assert(c[i_from].id == q[0]);
            assert(idj == i_from);
        } else {
            assert(t.spec_has_component(q[j - 1]));
            let idp = spec_index_of(t, q[j - 1]);
            lemma_index_of(t, q[j - 1]);
            assert(dist[idp] < infinity);
            assert(visited[idp]);
            let i0 = j - 1;
            assert(find_conn(conns, q[i0], q[i0 + 1]) is Some);
            assert(q[i0] == c[idp].id && q[i0 + 1] == c[idj].id);
            assert(find_conn(conns, c[idp].id, c[idj].id) is Some);
            lemma_find_conn_wf(t, c[idp].id, c[idj].id);
            let w = spec_conn_latency_ps(find_conn(conns, c[idp].id, c[idj].id).unwrap());
            lemma_conn_latency_bound(find_conn(conns, c[idp].id, c[idj].id).unwrap());
            assert(dist[idj] <= dist[idp] + w);
            assert((n + 2) * 1_050_000_000 + 1_050_000_000 < infinity) by (nonlinear_arith)
                requires
                    n <= 0xffff_ffff_ffff_ffffint,
                    infinity == 0xffff_ffff_ffff_ffff_ffff_ffff_ffff_ffffu128,
            ;
        }
    }
}

} // verus!

verus! {

/// In a well-formed topology, looking a stored component up by its own id
/// yields that component.
pub proof fn lemma_component_of_at(t: PhysicalTopology, k: int)
    requires
        t.wf(),
        0 <= k < t.components@.len(),
    ensures
        t.spec_has_component(t.components@[k].id),
        spec_component_of(t.components@, t.components@[k].id) == t.components@[k],
{
    let id = t.components@[k].id;
    assert(has_component_in(t.components@, id));
    let chosen = choose|i2: int|
        0 <= i2 < t.components@.len() && t.components@[i2].id == id;
    assert(t.components@[chosen].id == id);
    if chosen != k {
        if chosen < k {
            assert(t.components@[chosen].id != t.components@[k].id);
        } else {
            assert(t.components@[k].id != t.components@[chosen].id);
        }
    }
}

} // verus!
