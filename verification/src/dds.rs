//! Quality-of-service profiles for data-distribution messaging.

use vstd::prelude::*;

verus! {

/// Delivery guarantee of a topic.
#[derive(Debug, Clone, Copy, PartialEq, Eq, Structural)]
pub enum ReliabilityQoS {
    BestEffort,
    Reliable,
}

/// How long samples outlive their writer.
#[derive(Debug, Clone, Copy, PartialEq, Eq, Structural)]
pub enum DurabilityQoS {
    Volatile,
    TransientLocal,
    Transient,
    Persistent,
}

/// How many samples are kept per instance.
#[derive(Debug, Clone, Copy, PartialEq, Eq, Structural)]
pub enum HistoryQoS {
    KeepLast(u32),
    KeepAll,
}

/// A bundle of quality-of-service settings.
#[derive(Debug, Clone)]
pub struct DDSQoSProfile {
    pub reliability: ReliabilityQoS,
    pub durability: DurabilityQoS,
    pub history: HistoryQoS,
    pub deadline_ms: u32,
    pub liveliness_lease_ms: u32,
}

impl Default for DDSQoSProfile {
    /// Reliable, volatile, last ten samples, 100 ms deadline, one second
    /// liveliness lease.
    fn default() -> (r: DDSQoSProfile)
        ensures
            r.reliability == ReliabilityQoS::Reliable,
            r.durability == DurabilityQoS::Volatile,
            r.history == HistoryQoS::KeepLast(10),
            r.deadline_ms == 100,
            r.liveliness_lease_ms == 1000,
    {
        DDSQoSProfile {
            reliability: ReliabilityQoS::Reliable,
            durability: DurabilityQoS::Volatile,
            history: HistoryQoS::KeepLast(10),
            deadline_ms: 100,
            liveliness_lease_ms: 1000,
        }
    }
}

impl DDSQoSProfile {
    /// The tight profile used for control traffic: reliable, transient
    /// local, full history, 5 ms deadline, 100 ms lease.
    pub fn critical_control() -> (r: DDSQoSProfile)
        ensures
            r.reliability == ReliabilityQoS::Reliable,
            r.durability == DurabilityQoS::TransientLocal,
            r.history == HistoryQoS::KeepAll,
            r.deadline_ms == 5,
            r.liveliness_lease_ms == 100,
    {
        DDSQoSProfile {
            reliability: ReliabilityQoS::Reliable,
            durability: DurabilityQoS::TransientLocal,
            history: HistoryQoS::KeepAll,
            deadline_ms: 5,
            liveliness_lease_ms: 100,
        }
    }

    /// The loose profile used for telemetry: best effort, volatile, last
    /// five samples, one second deadline, five second lease.
    pub fn telemetry() -> (r: DDSQoSProfile)
        ensures
            r.reliability == ReliabilityQoS::BestEffort,
            r.durability == DurabilityQoS::Volatile,
            r.history == HistoryQoS::KeepLast(5),
            r.deadline_ms == 1000,
            r.liveliness_lease_ms == 5000,
    {
        DDSQoSProfile {
            reliability: ReliabilityQoS::BestEffort,
            durability: DurabilityQoS::Volatile,
            history: HistoryQoS::KeepLast(5),
            deadline_ms: 1000,
            liveliness_lease_ms: 5000,
        }
    }
}

} // verus!
