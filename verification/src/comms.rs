//! The communication hub: link configuration, operators, radar contacts,
//! and topology-driven message timing.
//!
//! Times are nanoseconds unless a name says otherwise; distances are
//! millimeters, bearings millidegrees, speeds millimeters per second.

use vstd::prelude::*;
use crate::dds::DDSQoSProfile;
use crate::fog::FogComputingManager;
use crate::topology::{
    ComponentId, ConnectionEntry, PhysicalTopology, TopologyError, find_conn,
    lemma_conn_latency_bound, spec_conn_latency_ps, spec_hops_connected, spec_path_latency_ps,
    spec_path_reliability_ppt, spec_registered_path, spec_route_exists,
};
use crate::tta::TTACycle;

verus! {

/// The configured kind of a communication link.
#[derive(Debug, Clone, PartialEq)]
pub enum LinkType {
    MAVLink { version: u8, heartbeat_interval_ms: u32 },
    LoRa { frequency_mhz: u32, spreading_factor: u8 },
    WiFiDirect { bandwidth_mbps: u32, channel: u8 },
    MilitaryEncrypted { key_rotation_minutes: u32, cipher_suite: String },
    TimeTriggered { cycle_time_us: u32, slot_count: u8 },
    DDS { reliability_qos: String, deadline_ms: u32, history_depth: u32 },
    FogComputing { edge_node_id: String, offload_threshold_milli: u32 },
    XRCEDDS { resource_constraints: bool, mtu_size: u16 },
    PALS { period_ms: u32, synchronization_window_us: u32 },
}

/// A link and its state.
#[derive(Debug, Clone)]
pub struct CommunicationLink {
    pub link_type: LinkType,
    pub encryption: bool,
    pub last_active: Option<u64>,
}

/// The placeholder secure channel: it records the requested cipher suite
/// and a heartbeat interval; its framing leaves data unchanged.
#[derive(Debug, Clone)]
pub struct SecureChannel {
    pub cipher_suite: String,
    pub heartbeat_interval: u32,
}

impl SecureChannel {
    /// A channel for the named cipher suite, with a one second heartbeat.
    pub fn new(cipher_suite: &str) -> (r: SecureChannel)
        ensures
            r.cipher_suite@ == cipher_suite@,
            r.spec_heartbeat_interval() == 1000,
    {
        SecureChannel { cipher_suite: cipher_suite.to_owned(), heartbeat_interval: 1000 }
    }

    /// The heartbeat interval, in milliseconds.
    pub open spec fn spec_heartbeat_interval(self) -> u32 {
        self.heartbeat_interval
    }

    /// Frames a buffer for the channel; the placeholder passes the bytes
    /// through unchanged.
    pub fn encrypt(&self, data: &[u8]) -> (r: Vec<u8>)
        ensures
            r@ == data@,
    {
        let mut out: Vec<u8> = Vec::new();
        let mut i: usize = 0;
        while i < data.len()
            invariant
                i <= data@.len(),
                out@ == data@.take(i as int),
            decreases data@.len() - i,
        {
            out.push(data[i]);
            i = i + 1;
        }
        proof {
            assert(data@.take(data@.len() as int) =~= data@);
        }
        out
    }

    /// The heartbeat interval, in milliseconds.
    pub fn get_heartbeat_interval(&self) -> (r: u32)
        ensures
            r == self.spec_heartbeat_interval(),
    {
        self.heartbeat_interval
    }

    /// Sets the heartbeat interval, in milliseconds.
    pub fn set_heartbeat_interval(&mut self, interval: u32)
        ensures
            final(self).spec_heartbeat_interval() == interval,
            final(self).cipher_suite@ == old(self).cipher_suite@,
    {
        self.heartbeat_interval = interval;
    }
}

/// A ground operator and the link assignments it holds.
#[derive(Debug, Clone)]
pub struct Operator {
    pub id: String,
    pub clearance_level: u8,
    pub assigned_links: Vec<LinkType>,
    pub last_heartbeat: Option<u64>,
}

/// A radar return.
#[derive(Debug, Clone)]
pub struct RadarContact {
    pub distance_mm: u64,
    pub bearing_mdeg: i32,
    pub relative_speed_mm_s: i32,
    pub via_link: LinkType,
}

/// A received navigation beacon.
#[derive(Debug, Clone)]
pub struct NavigationBeacon {
    pub id: String,
    pub latitude_udeg: i64,
    pub longitude_udeg: i64,
    /// Received signal strength in thousandths.
    pub signal_strength_milli: u32,
    pub link_used: LinkType,
}

/// Urgency the control cycle asks of the link layer.
#[derive(Debug, Clone, Copy, PartialEq, Eq, Structural)]
pub enum CommsPriority {
    Low,
    Medium,
    High,
}

/// Priority warranted by a cycle duration alone: high under 100 ms,
/// medium under 500 ms, low beyond.
pub open spec fn spec_bandwidth_needed(ooda_time_ns: int) -> CommsPriority {
    if ooda_time_ns < 100_000_000 {
        CommsPriority::High
    } else if ooda_time_ns < 500_000_000 {
        CommsPriority::Medium
    } else {
        CommsPriority::Low
    }
}

/// Sum of the one-hop latencies of all stored connections, in picoseconds.
pub open spec fn spec_total_direct_latency_ps(conns: Seq<ConnectionEntry>) -> int
    decreases conns.len(),
{
    if conns.len() == 0 {
        0
    } else {
        spec_total_direct_latency_ps(conns.drop_last()) + spec_conn_latency_ps(
            conns.last().connection,
        )
    }
}

/// Mean one-hop latency over the stored connections, in picoseconds; the
/// documented fallback of one microsecond when there are none.
pub open spec fn spec_average_direct_latency_ps(conns: Seq<ConnectionEntry>) -> int {
    if conns.len() == 0 {
        1_000_000
    } else {
        spec_total_direct_latency_ps(conns) / conns.len() as int
    }
}

/// Priority after the physical layout is taken into account: high average
/// link latency escalates the need, a very low average lets an only
/// just-fast cycle relax to medium.
pub open spec fn spec_adjusted_priority(ooda_time_ns: int, avg_latency_ps: int) -> CommsPriority {
    let needed = spec_bandwidth_needed(ooda_time_ns);
    if avg_latency_ps > 1_000_000 {
        if needed == CommsPriority::Low {
            CommsPriority::Medium
        } else {
            CommsPriority::High
        }
    } else if avg_latency_ps < 100_000 {
        if needed == CommsPriority::High && ooda_time_ns > 80_000_000 {
            CommsPriority::Medium
        } else {
            needed
        }
    } else {
        needed
    }
}

/// Failures of hub messaging.
#[derive(Debug, Clone, Copy, PartialEq, Eq, Structural)]
pub enum CommsError {
    /// The hub holds no physical topology.
    NoTopology,
    /// No path connects the two components.
    NoPath,
    /// A path query failed on the topology.
    Path(TopologyError),
    /// The draw against path reliability lost the message.
    MessageLost,
}

/// The communication hub.
#[derive(Debug, Clone)]
pub struct CommunicationHub {
    pub primary_link: CommunicationLink,
    pub backup_links: Vec<CommunicationLink>,
    pub operators: Vec<Operator>,
    pub secure_channel: Option<SecureChannel>,
    pub radar_contacts: Vec<RadarContact>,
    pub tta_cycle: Option<TTACycle>,
    pub dds_profile: Option<DDSQoSProfile>,
    pub fog_manager: Option<FogComputingManager>,
    pub physical_topology: Option<PhysicalTopology>,
    pub beacon_log: Vec<NavigationBeacon>,
}

impl CommunicationHub {
    /// Any topology the hub holds is well formed.
    pub open spec fn wf(self) -> bool {
        self.physical_topology matches Some(t) ==> t.wf()
    }

    /// A hub on the given primary link. A secure hub gets the placeholder
    /// secure channel; a time-triggered, data-distribution or fog primary
    /// link brings up its scheduling state.
    pub fn new(primary: LinkType, secure: bool) -> (r: CommunicationHub)
        requires
            primary matches LinkType::TimeTriggered { slot_count, .. } ==> slot_count >= 1,
        ensures
            r.wf(),
            r.primary_link.link_type == primary,
            r.primary_link.encryption == secure,
            r.primary_link.last_active is None,
            r.backup_links@.len() == 0,
            r.operators@.len() == 0,
            r.radar_contacts@.len() == 0,
            r.beacon_log@.len() == 0,
            r.physical_topology is None,
            secure <==> r.secure_channel is Some,
            (primary matches LinkType::TimeTriggered { cycle_time_us, slot_count } ==> (
            r.tta_cycle matches Some(t) && t.cycle_time_us == cycle_time_us && t.slots@.len()
                == slot_count)),
            (primary matches LinkType::DDS { .. } ==> r.dds_profile is Some),
            (primary matches LinkType::FogComputing { offload_threshold_milli, .. } ==> (
            r.fog_manager matches Some(f) && f.local_cpu_threshold_milli
                == offload_threshold_milli)),
            !(primary matches LinkType::TimeTriggered { .. }) ==> r.tta_cycle is None,
            !(primary matches LinkType::DDS { .. }) ==> r.dds_profile is None,
            !(primary matches LinkType::FogComputing { .. }) ==> r.fog_manager is None,
    {
        let secure_channel = if secure {
            Some(SecureChannel::new("AES256-SHA256"))
        } else {
            None
        };
        let (tta_cycle, dds_profile, fog_manager) = match &primary {
            LinkType::TimeTriggered { cycle_time_us, slot_count } => (
                Some(TTACycle::new(*cycle_time_us, *slot_count)),
                None,
                None,
            ),
            LinkType::DDS { .. } => (None, Some(DDSQoSProfile::default()), None),
            LinkType::FogComputing { offload_threshold_milli, .. } => (
                None,
                None,
                Some(FogComputingManager::new(*offload_threshold_milli)),
            ),
            _ => (None, None, None),
        };
        CommunicationHub {
            primary_link: CommunicationLink {
                link_type: primary,
                encryption: secure,
                last_active: None,
            },
            backup_links: Vec::new(),
            operators: Vec::new(),
            secure_channel,
            radar_contacts: Vec::new(),
            tta_cycle,
            dds_profile,
            fog_manager,
            physical_topology: None,
            beacon_log: Vec::new(),
        }
    }

    /// Registers an operator with a fresh heartbeat at `now_ns`.
    pub fn add_operator(&mut self, id: String, clearance: u8, links: Vec<LinkType>, now_ns: u64)
        ensures
            final(self).operators@.len() == old(self).operators@.len() + 1,
            ({
                let op = final(self).operators@.last();
                &&& op.id@ == id@
                &&& op.clearance_level == clearance
                &&& op.assigned_links@ == links@
                &&& op.last_heartbeat == Some(now_ns)
            }),
            forall|j: int|
                0 <= j < old(self).operators@.len() ==> #[trigger] final(self).operators@[j]
                    == old(self).operators@[j],
            final(self).primary_link == old(self).primary_link,
            final(self).radar_contacts@ == old(self).radar_contacts@,
            final(self).physical_topology == old(self).physical_topology,
    {
        self.operators.push(
            Operator {
                id,
                clearance_level: clearance,
                assigned_links: links,
                last_heartbeat: Some(now_ns),
            },
        );
    }

    /// Attaches the shared physical layout.
    pub fn set_physical_topology(&mut self, topology: PhysicalTopology)
        requires
            topology.wf(),
        ensures
            final(self).wf(),
            final(self).physical_topology == Some(topology),
            final(self).primary_link == old(self).primary_link,
            final(self).backup_links == old(self).backup_links,
            final(self).operators@ == old(self).operators@,
            final(self).secure_channel == old(self).secure_channel,
            final(self).radar_contacts@ == old(self).radar_contacts@,
            final(self).tta_cycle == old(self).tta_cycle,
            final(self).dds_profile == old(self).dds_profile,
            final(self).fog_manager == old(self).fog_manager,
            final(self).beacon_log == old(self).beacon_log,
    {
        self.physical_topology = Some(topology);
    }

    /// Latency of the best path the layout offers between two components,
    /// in picoseconds. Fails with `NoTopology` when no layout is attached,
    /// and with `NoPath` exactly when the layout connects no route between
    /// the two; a route between two distinct components always yields a
    /// latency.
    pub fn calculate_message_latency(&self, from: &ComponentId, to: &ComponentId) -> (r: Result<
        u128,
        CommsError,
    >)
        requires
            self.wf(),
        ensures
            self.physical_topology is None ==> r == Err::<u128, CommsError>(CommsError::NoTopology),
            self.physical_topology matches Some(t) ==> {
                &&& (r == Err::<u128, CommsError>(CommsError::NoPath) <==> !spec_route_exists(
                    t,
                    *from,
                    *to,
                ))
                &&& (*from != *to && spec_route_exists(t, *from, *to) ==> r is Ok)
                &&& (*from == *to && spec_route_exists(t, *from, *to) ==> r == Err::<
                    u128,
                    CommsError,
                >(CommsError::Path(TopologyError::PathTooShort)))
            },
            r matches Ok(v) ==> (self.physical_topology matches Some(t) && exists|p: Seq<
                ComponentId,
            >|
                {
                    &&& p.len() >= 2
                    &&& p[0] == *from
                    &&& p[p.len() - 1] == *to
                    &&& spec_hops_connected(t.connections@, p)
                    &&& v == spec_path_latency_ps(t.connections@, p)
                }),
    {
        match &self.physical_topology {
            Some(topology) => {
                match topology.find_shortest_path(from, to) {
                    Some(path) => {
                        proof {
                            assert(spec_registered_path(*topology, path@) && path@[0] == *from
                                && path@.last() == *to);
                            assert(spec_route_exists(*topology, *from, *to));
                        }
                        match topology.get_path_latency(path.as_slice()) {
                            Ok(latency) => {
                                proof {
                                    let ghost p = path@;
                                    assert(p.len() >= 2 && p[0] == *from && p[p.len() - 1] == *to
                                        && spec_hops_connected(topology.connections@, p) && latency
                                        == spec_path_latency_ps(topology.connections@, p));
                                }
                                Ok(latency)
                            },
                            Err(e) => Err(CommsError::Path(e)),
                        }
                    },
                    None => Err(CommsError::NoPath),
                }
            },
            None => Err(CommsError::NoTopology),
        }
    }

    /// Raises or lowers the link's urgency: the cycle time alone picks a
    /// priority, an attached layout's mean link latency adjusts it, and
    /// the links are reconfigured to the result.
    pub fn process_ooda_cycle(&mut self, ooda_time_ns: u64) -> (r: CommsPriority)
        requires
            old(self).wf(),
        ensures
            final(self).wf(),
            r == match old(self).physical_topology {
                Some(t) => spec_adjusted_priority(
                    ooda_time_ns as int,
                    spec_average_direct_latency_ps(t.connections@),
                ),
                None => spec_bandwidth_needed(ooda_time_ns as int),
            },
            spec_links_adjusted(*old(self), *final(self), r),
            final(self).operators@ == old(self).operators@,
            final(self).radar_contacts@ == old(self).radar_contacts@,
            final(self).physical_topology == old(self).physical_topology,
    {
        let bandwidth_needed: CommsPriority = if ooda_time_ns < 100_000_000 {
            CommsPriority::High
        } else if ooda_time_ns < 500_000_000 {
            CommsPriority::Medium
        } else {
            CommsPriority::Low
        };

        let adjusted: CommsPriority = match &self.physical_topology {
            Some(topology) => {
                let mut total: u128 = 0;
                let mut k: usize = 0;
                while k < topology.connections.len()
                    invariant
                        topology.wf(),
                        k <= topology.connections@.len(),
                        total == spec_total_direct_latency_ps(topology.connections@.take(k as int)),
                        total <= k * 1_050_000_000,
                    decreases topology.connections@.len() - k,
                {
                    let c = &topology.connections[k].connection;
                    proof {
                        assert(topology.connections@[k as int].connection.wf());
                        lemma_conn_latency_bound(topology.connections@[k as int].connection);
                        let pre = topology.connections@.take(k as int + 1);
                        assert(pre.drop_last() =~= topology.connections@.take(k as int));
                        assert(pre.last() == topology.connections@[k as int]);
                        assert((k as int) * 1_050_000_000 + 1_050_000_000 <= (k as int + 1)
                            * 1_050_000_000) by (nonlinear_arith);
                        assert((k as int + 1) * 1_050_000_000 <= 0xffff_ffff_ffff_ffffint
                            * 1_050_000_000) by (nonlinear_arith)
                            requires
                                k as int + 1 <= 0xffff_ffff_ffff_ffffint,
                        ;
                    }
                    total = total + (c.calculate_latency() as u128);
                    k = k + 1;
                }
                proof {
                    assert(topology.connections@.take(topology.connections@.len() as int)
                        =~= topology.connections@);
                }
                let avg: u128 = if topology.connections.len() > 0 {
                    total / (topology.connections.len() as u128)
                } else {
                    1_000_000
                };
                if avg > 1_000_000 {
                    match bandwidth_needed {
                        CommsPriority::Low => CommsPriority::Medium,
                        _ => CommsPriority::High,
                    }
                } else if avg < 100_000 {
                    match bandwidth_needed {
                        CommsPriority::High => {
                            if ooda_time_ns > 80_000_000 {
                                CommsPriority::Medium
                            } else {
                                CommsPriority::High
                            }
                        },
                        _ => bandwidth_needed,
                    }
                } else {
                    bandwidth_needed
                }
            },
            None => bandwidth_needed,
        };
        self.adjust_links(adjusted);
        adjusted
    }

    /// Brings up the secure channel if it is not yet established.
    pub fn establish_secure_link(&mut self) -> (r: Result<(), CommsError>)
        ensures
            r is Ok,
            final(self).secure_channel is Some,
            old(self).secure_channel matches Some(c) ==> final(self).secure_channel == Some(c),
            final(self).primary_link == old(self).primary_link,
            final(self).operators@ == old(self).operators@,
            final(self).radar_contacts@ == old(self).radar_contacts@,
            final(self).physical_topology == old(self).physical_topology,
    {
        match &self.secure_channel {
            Some(_) => Ok(()),
            None => {
                self.secure_channel = Some(SecureChannel::new("AES256-SHA256"));
                Ok(())
            },
        }
    }

    /// Records a received navigation beacon.
    pub fn log_beacon(&mut self, beacon: NavigationBeacon)
        ensures
            final(self).beacon_log@.len() == old(self).beacon_log@.len() + 1,
            final(self).beacon_log@.last().id@ == beacon.id@,
            final(self).primary_link == old(self).primary_link,
            final(self).operators@ == old(self).operators@,
            final(self).radar_contacts@ == old(self).radar_contacts@,
            final(self).physical_topology == old(self).physical_topology,
    {
        self.beacon_log.push(beacon);
    }

    /// Reconfigures the links for a priority: high urgency moves the
    /// primary link to data-distribution messaging, medium to a
    /// time-triggered round, low to long-range low-power radio; the
    /// matching scheduling state is brought up if missing.
    pub fn adjust_links(&mut self, priority: CommsPriority)
        ensures
            spec_links_adjusted(*old(self), *final(self), priority),
            final(self).operators@ == old(self).operators@,
            final(self).radar_contacts@ == old(self).radar_contacts@,
            final(self).physical_topology == old(self).physical_topology,
    {
        match priority {
            CommsPriority::High => {
                if self.dds_profile.is_none() {
                    self.dds_profile = Some(DDSQoSProfile::critical_control());
                }
                self.primary_link.link_type = LinkType::DDS {
                    reliability_qos: String::from_str("RELIABLE"),
                    deadline_ms: 5,
                    history_depth: 1,
                };
            },
            CommsPriority::Medium => {
                if self.tta_cycle.is_none() {
                    self.tta_cycle = Some(TTACycle::new(10000, 8));
                }
                self.primary_link.link_type = LinkType::TimeTriggered {
                    cycle_time_us: 10000,
                    slot_count: 8,
                };
            },
            CommsPriority::Low => {
                if self.fog_manager.is_none() {
                    self.fog_manager = Some(FogComputingManager::new(700));
                }
                self.primary_link.link_type = LinkType::LoRa {
                    frequency_mhz: 915,
                    spreading_factor: 10,
                };
            },
        }
    }
}

/// What `adjust_links` leaves behind for each priority.
pub open spec fn spec_links_adjusted(
    before: CommunicationHub,
    after: CommunicationHub,
    priority: CommsPriority,
) -> bool {
    match priority {
        CommsPriority::High => {
            &&& (after.primary_link.link_type matches LinkType::DDS {
                reliability_qos,
                deadline_ms,
                history_depth,
            } && reliability_qos@ == "RELIABLE"@ && deadline_ms == 5 && history_depth == 1)
            &&& after.dds_profile is Some
            &&& (before.dds_profile matches Some(p) ==> after.dds_profile == Some(p))
        },
        CommsPriority::Medium => {
            &&& after.primary_link.link_type == (LinkType::TimeTriggered {
                cycle_time_us: 10000,
                slot_count: 8,
            })
            &&& after.tta_cycle is Some
            &&& (before.tta_cycle matches Some(t) ==> after.tta_cycle == Some(t))
        },
        CommsPriority::Low => {
            &&& after.primary_link.link_type == (LinkType::LoRa {
                frequency_mhz: 915,
                spreading_factor: 10,
            })
            &&& after.fog_manager is Some
            &&& (before.fog_manager matches Some(f) ==> after.fog_manager == Some(f))
        },
    }
}

} // verus!

verus! {

/// Fallback one-way latency by primary link kind, in nanoseconds, used
/// when no physical layout is attached.
pub open spec fn spec_fallback_latency_ns(lt: LinkType) -> int {
    match lt {
        LinkType::DDS { .. } => 500_000,
        LinkType::TimeTriggered { .. } => 1_000_000,
        LinkType::WiFiDirect { .. } => 2_000_000,
        LinkType::MAVLink { .. } => 5_000_000,
        LinkType::LoRa { .. } => 50_000_000,
        _ => 10_000_000,
    }
}

/// The slowest link on a path, in kilobits per second; meaningful when
/// the hops are connected.
pub open spec fn spec_min_rate_kbps(conns: Seq<ConnectionEntry>, path: Seq<ComponentId>) -> int
    decreases path.len(),
{
    if path.len() < 2 {
        0xffff_ffff_ffff_ffff
    } else {
        let rest = spec_min_rate_kbps(conns, path.drop_last());
        let here = find_conn(
            conns,
            path[path.len() - 2],
            path[path.len() - 1],
        ).unwrap().max_data_rate_kbps as int;
        if here < rest {
            here
        } else {
            rest
        }
    }
}

impl CommunicationHub {
    /// Simulates delivery of `data` between two components. With a layout
    /// attached, the message takes the best path: its latency is the path
    /// propagation time plus the serialization time at the path's slowest
    /// link, and on paths below the reliability threshold a random draw
    /// may lose the message. Without a layout, a fixed per-link-kind
    /// latency is returned.
    pub fn process_message(&mut self, data: &[u8], from: ComponentId, to: ComponentId) -> (r:
        Result<u128, CommsError>)
        requires
            old(self).wf(),
        ensures
            *final(self) == *old(self),
            old(self).physical_topology is None ==> r == Ok::<u128, CommsError>(
                spec_fallback_latency_ns(old(self).primary_link.link_type) as u128,
            ),
            old(self).physical_topology matches Some(t) ==> (r matches Ok(v) ==> exists|p: Seq<
                ComponentId,
            >|
                {
                    &&& p.len() >= 2
                    &&& p[0] == from
                    &&& p[p.len() - 1] == to
                    &&& spec_hops_connected(t.connections@, p)
                    &&& v == spec_path_latency_ps(t.connections@, p) / 1000 + (
                    if spec_min_rate_kbps(t.connections@, p) > 0 {
                        8 * (data@.len() as int) / spec_min_rate_kbps(t.connections@, p)
                    } else {
                        0int
                    })
                }),
            old(self).physical_topology matches Some(t) ==> {
                &&& (r == Err::<u128, CommsError>(CommsError::NoPath) <==> !spec_route_exists(
                    t,
                    from,
                    to,
                ))
                &&& (from != to && spec_route_exists(t, from, to) ==> (r is Ok || r == Err::<
                    u128,
                    CommsError,
                >(CommsError::MessageLost)))
                &&& (from == to && spec_route_exists(t, from, to) ==> r == Err::<u128, CommsError>(
                    CommsError::Path(TopologyError::PathTooShort),
                ))
                &&& (r == Err::<u128, CommsError>(CommsError::MessageLost) ==> exists|p: Seq<
                    ComponentId,
                >|
                    {
                        &&& spec_registered_path(t, p)
                        &&& p[0] == from
                        &&& p.last() == to
                        &&& spec_path_reliability_ppt(t.connections@, p) < 990_000_000_000
                    })
            },
    {
        let topology = match &self.physical_topology {
            Some(t) => t,
            None => {
                let latency_ns: u128 = match &self.primary_link.link_type {
                    LinkType::DDS { .. } => 500_000,
                    LinkType::TimeTriggered { .. } => 1_000_000,
                    LinkType::WiFiDirect { .. } => 2_000_000,
                    LinkType::MAVLink { .. } => 5_000_000,
                    LinkType::LoRa { .. } => 50_000_000,
                    _ => 10_000_000,
                };
                return Ok(latency_ns);
            },
        };
        let path = match topology.find_shortest_path(&from, &to) {
            Some(p) => p,
            None => {
                return Err(CommsError::NoPath);
            },
        };
        proof {
            assert(spec_registered_path(*topology, path@) && path@[0] == from && path@.last()
                == to);
            assert(spec_route_exists(*topology, from, to));
        }
        let path_latency_ps = match topology.get_path_latency(path.as_slice()) {
            Ok(v) => v,
            Err(e) => {
                return Err(CommsError::Path(e));
            },
        };
        let path_reliability_ppt = match topology.get_path_reliability(path.as_slice()) {
            Ok(v) => v,
            Err(e) => {
                return Err(CommsError::Path(e));
            },
        };

        // The slowest link along the path bounds the serialization rate.
        let ghost conns = topology.connections@;
        let mut min_rate_kbps: u64 = 0xffff_ffff_ffff_ffff;
        let mut i: usize = 0;
        while i < path.len() - 1
            invariant
                topology.wf(),
                path@.len() >= 2,
                i <= path@.len() - 1,
                conns == topology.connections@,
                spec_hops_connected(conns, path@),
                min_rate_kbps == spec_min_rate_kbps(conns, path@.take(i + 1)),
            decreases path@.len() - 1 - i,
        {
            proof {
                assert(find_conn(conns, path@[i as int], path@[i as int + 1]) is Some);
            }
            let hop = match topology.lookup_connection(&path[i], &path[i + 1]) {
                Some(c) => c,
                None => {
                    return Err(CommsError::NoPath);
                },
            };
            proof {
                let pre = path@.take(i + 2);
                assert(pre.drop_last() =~= path@.take(i + 1));
                assert(pre[pre.len() - 2] == path@[i as int] && pre[pre.len() - 1] == path@[i as int
                    + 1]);
            }
            if hop.max_data_rate_kbps < min_rate_kbps {
                min_rate_kbps = hop.max_data_rate_kbps;
            }
            i = i + 1;
        }
        proof {
            assert(path@.take(path@.len() as int) =~= path@);
        }

        let message_bits: u128 = (data.len() as u128) * 8;
        let transmission_ns: u128 = if min_rate_kbps > 0 {
            message_bits / (min_rate_kbps as u128)
        } else {
            0
        };
        let total_ns: u128 = path_latency_ps / 1000 + transmission_ns;
        proof {
            assert(8 * (data@.len() as int) == message_bits) by (nonlinear_arith)
                requires
                    message_bits == (data@.len() as int) * 8,
            ;
        }

        // Below the reliability threshold the message may be lost.
        if path_reliability_ppt < 990_000_000_000 {
            let draw_ppm = crate::rng::random_unit_ppm();
            let reliability_ppm = path_reliability_ppt / 1_000_000;
            if draw_ppm > reliability_ppm {
                return Err(CommsError::MessageLost);
            }
        }
        Ok(total_ns)
    }
}

} // verus!

verus! {

/// A copy of a link configuration, equal in value.
pub fn clone_link(l: &LinkType) -> (r: LinkType)
    ensures
        r == *l,
{
    match l {
        LinkType::MAVLink { version, heartbeat_interval_ms } => LinkType::MAVLink {
            version: *version,
            heartbeat_interval_ms: *heartbeat_interval_ms,
        },
        LinkType::LoRa { frequency_mhz, spreading_factor } => LinkType::LoRa {
            frequency_mhz: *frequency_mhz,
            spreading_factor: *spreading_factor,
        },
        LinkType::WiFiDirect { bandwidth_mbps, channel } => LinkType::WiFiDirect {
            bandwidth_mbps: *bandwidth_mbps,
            channel: *channel,
        },
        LinkType::MilitaryEncrypted { key_rotation_minutes, cipher_suite } => LinkType::MilitaryEncrypted {
            key_rotation_minutes: *key_rotation_minutes,
            cipher_suite: cipher_suite.clone(),
        },
        LinkType::TimeTriggered { cycle_time_us, slot_count } => LinkType::TimeTriggered {
            cycle_time_us: *cycle_time_us,
            slot_count: *slot_count,
        },
        LinkType::DDS { reliability_qos, deadline_ms, history_depth } => LinkType::DDS {
            reliability_qos: reliability_qos.clone(),
            deadline_ms: *deadline_ms,
            history_depth: *history_depth,
        },
        LinkType::FogComputing { edge_node_id, offload_threshold_milli } => LinkType::FogComputing {
            edge_node_id: edge_node_id.clone(),
            offload_threshold_milli: *offload_threshold_milli,
        },
        LinkType::XRCEDDS { resource_constraints, mtu_size } => LinkType::XRCEDDS {
            resource_constraints: *resource_constraints,
            mtu_size: *mtu_size,
        },
        LinkType::PALS { period_ms, synchronization_window_us } => LinkType::PALS {
            period_ms: *period_ms,
            synchronization_window_us: *synchronization_window_us,
        },
    }
}

/// A copy of a radar contact, equal in value.
pub fn clone_contact(c: &RadarContact) -> (r: RadarContact)
    ensures
        r == *c,
{
    RadarContact {
        distance_mm: c.distance_mm,
        bearing_mdeg: c.bearing_mdeg,
        relative_speed_mm_s: c.relative_speed_mm_s,
        via_link: clone_link(&c.via_link),
    }
}

/// A copy of a contact list, equal in value.
pub fn clone_contacts(v: &Vec<RadarContact>) -> (r: Vec<RadarContact>)
    ensures
        r@ == v@,
{
    let mut r: Vec<RadarContact> = Vec::new();
    let mut i: usize = 0;
    while i < v.len()
        invariant
            i <= v@.len(),
            r@ == v@.take(i as int),
        decreases v@.len() - i,
    {
        r.push(clone_contact(&v[i]));
        proof {
            assert(r@ =~= v@.take(i as int + 1));
        }
        i = i + 1;
    }
    proof {
        assert(v@.take(v@.len() as int) =~= v@);
    }
    r
}

} // verus!
