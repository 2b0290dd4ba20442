//! The observe-orient-decide-act control cycle: environment
//! classification, Markov prediction, decision caching, and simulated
//! actuation timing over the physical layout.

use vstd::prelude::*;
use crate::clock::Clock;
use crate::comms::{CommunicationHub, CommsPriority, LinkType, RadarContact};
use crate::flight::FlightController;
use crate::markov::{MarkovEnvironmentModel, row_sum, row_sum_ok, spec_matrix_error};
use crate::payload::PayloadManager;
use crate::sensor::{
    IMUReading, PayloadStatus, SensorData, SensorFusion, Situation, ThreatLevel, Vec3i,
    spec_threat_level,
};
use crate::topology::{ComponentId, PhysicalTopology, spec_hops_connected, spec_path_latency_ps};

verus! {

/// A control action the decide step can select.
#[derive(Debug, Clone, Copy, PartialEq, Eq, Structural)]
pub enum Decision {
    /// Change altitude by the given offset in centimeters.
    ChangeAltitude(i64),
    SwitchPayloadMode,
    EnhanceCommsReliability,
    PrepareMeshNetworking,
}

/// The cache-reuse rule: an altitude change suits only a high threat, a
/// payload switch suits medium or low, and the two communication
/// preparations suit any threat.
pub open spec fn spec_decision_matches(d: Decision, t: ThreatLevel) -> bool {
    match d {
        Decision::ChangeAltitude(_) => t == ThreatLevel::High,
        Decision::SwitchPayloadMode => t == ThreatLevel::Medium || t == ThreatLevel::Low,
        Decision::EnhanceCommsReliability => true,
        Decision::PrepareMeshNetworking => true,
    }
}

impl Decision {
    /// Whether a cached decision remains compatible with the situation.
    pub fn matches(&self, situation: &Situation) -> (r: bool)
        ensures
            r == spec_decision_matches(*self, situation.threat_level),
    {
        match (self, &situation.threat_level) {
            (Decision::ChangeAltitude(_), ThreatLevel::High) => true,
            (Decision::SwitchPayloadMode, ThreatLevel::Medium) => true,
            (Decision::SwitchPayloadMode, ThreatLevel::Low) => true,
            (Decision::EnhanceCommsReliability, _) => true,
            (Decision::PrepareMeshNetworking, _) => true,
            _ => false,
        }
    }
}

/// The baseline decision a threat level warrants: a 100 centimeter climb
/// under high threat, a payload switch otherwise.
pub open spec fn spec_baseline_decision(t: ThreatLevel) -> Decision {
    if t == ThreatLevel::High {
        Decision::ChangeAltitude(100)
    } else {
        Decision::SwitchPayloadMode
    }
}

/// The baseline decision maker.
pub struct DecisionMaker {}

impl DecisionMaker {
    /// The baseline decision for the situation's threat level.
    pub fn make(situation: &Situation, _payload: &PayloadManager) -> (d: Decision)
        ensures
            d == spec_baseline_decision(situation.threat_level),
    {
        match situation.threat_level {
            ThreatLevel::High => Decision::ChangeAltitude(100),
            _ => Decision::SwitchPayloadMode,
        }
    }
}

/// The decision adjusted purely by the predicted environment label:
/// heavy rain or fog ahead prepares communication robustness, an urban
/// canyon ahead prepares mesh networking, anything else keeps the
/// baseline.
pub open spec fn spec_adjusted_decision(t: ThreatLevel, predicted: Seq<char>) -> Decision {
    if predicted == "heavy_rain"@ || predicted == "fog"@ {
        Decision::EnhanceCommsReliability
    } else if predicted == "urban_canyon"@ {
        Decision::PrepareMeshNetworking
    } else {
        spec_baseline_decision(t)
    }
}

/// A fresh decision when the cache does not apply: the predictive
/// adjustment overrides the baseline only when it differs and the
/// current threat is low.
pub open spec fn spec_fresh_decision(t: ThreatLevel, predicted: Seq<char>) -> Decision {
    let base = spec_baseline_decision(t);
    let adjusted = spec_adjusted_decision(t, predicted);
    if adjusted != base && t == ThreatLevel::Low {
        adjusted
    } else {
        base
    }
}

/// The decide step's result over the cache, threat, and prediction.
pub open spec fn spec_decide(cache: Option<Decision>, t: ThreatLevel, predicted: Seq<char>) -> Decision {
    match cache {
        Some(c) => {
            if spec_decision_matches(c, t) {
                c
            } else {
                spec_fresh_decision(t, predicted)
            }
        },
        None => spec_fresh_decision(t, predicted),
    }
}

/// Clamp of a proposed state index to the configured state list.
pub open spec fn spec_clamp_state(i: int, n: int) -> int {
    if i <= n - 1 {
        i
    } else {
        n - 1
    }
}

/// Whether any radar contact closes faster than 30 meters per second.
pub open spec fn spec_any_fast_contact(contacts: Seq<RadarContact>) -> bool {
    exists|i: int| 0 <= i < contacts.len() && (#[trigger] contacts[i]).relative_speed_mm_s > 30_000
}

/// The environment classification rule, in strict priority order: more
/// than three contacts without a satellite fix is an urban canyon; two or
/// three contacts with a fix is forest; any contact over 30 meters per
/// second is mountainous; otherwise the threat level maps to heavy rain,
/// fog or light rain, or clear. Indices are clamped to the state count.
pub open spec fn spec_classify(
    n: int,
    contacts: Seq<RadarContact>,
    gps_fix: bool,
    t: ThreatLevel,
) -> int {
    if contacts.len() > 3 && !gps_fix {
        spec_clamp_state(4, n)
    } else if contacts.len() > 1 && contacts.len() <= 3 && gps_fix {
        spec_clamp_state(5, n)
    } else if spec_any_fast_contact(contacts) {
        spec_clamp_state(6, n)
    } else if t == ThreatLevel::High {
        spec_clamp_state(2, n)
    } else if t == ThreatLevel::Medium {
        if contacts.len() == 0 {
            spec_clamp_state(3, n)
        } else {
            spec_clamp_state(1, n)
        }
    } else {
        0
    }
}

/// An operator heartbeat is fresh within five seconds of `now_ns`.
pub open spec fn spec_heartbeat_fresh(heartbeat_ns: int, now_ns: int) -> bool {
    heartbeat_ns > now_ns || now_ns - heartbeat_ns < 5_000_000_000
}

/// How many operators have a fresh heartbeat at `now_ns`.
pub open spec fn spec_fresh_operator_count(ops: Seq<crate::comms::Operator>, now_ns: int) -> int
    decreases ops.len(),
{
    if ops.len() == 0 {
        0
    } else {
        spec_fresh_operator_count(ops.drop_last(), now_ns) + (
        match ops.last().last_heartbeat {
            Some(h) => {
                if spec_heartbeat_fresh(h as int, now_ns) {
                    1int
                } else {
                    0int
                }
            },
            None => 0int,
        })
    }
}

/// Latency in nanoseconds of a path through the layout, or a default when
/// any hop of the path is missing.
pub open spec fn spec_path_or_default_ns(
    t: PhysicalTopology,
    path: Seq<ComponentId>,
    default_ns: int,
) -> int {
    if path.len() >= 2 && spec_hops_connected(t.connections@, path) {
        spec_path_latency_ps(t.connections@, path) / 1000
    } else {
        default_ns
    }
}

/// The largest flight-controller-to-motor latency among the four motor
/// links, in picoseconds; unconnected motors contribute nothing.
pub open spec fn spec_motor_latency_max_ps(t: PhysicalTopology, upto: nat) -> int
    decreases upto,
{
    if upto == 0 {
        0
    } else {
        let rest = spec_motor_latency_max_ps(t, (upto - 1) as nat);
        let path = seq![
            ComponentId::FlightController,
            ComponentId::MotorController((upto - 1) as u8),
        ];
        let here = if spec_hops_connected(t.connections@, path) {
            spec_path_latency_ps(t.connections@, path)
        } else {
            0
        };
        if here > rest {
            here
        } else {
            rest
        }
    }
}

/// `x` capped at the largest `u64`.
pub open spec fn spec_cap_u64(x: int) -> int {
    if x > u64::MAX {
        u64::MAX as int
    } else {
        x
    }
}

/// The actuation delay of a decision, in nanoseconds. With a layout:
/// an altitude change takes the slowest motor link plus ten nanoseconds
/// per centimeter of commanded change; a payload switch takes the
/// processor-to-camera path; the communication decisions take the
/// processor-to-radio path, doubled for mesh preparation. Without a
/// layout, fixed defaults apply.
pub open spec fn spec_act_delay_ns(layout: Option<PhysicalTopology>, d: Decision) -> int {
    match d {
        Decision::ChangeAltitude(delta) => {
            let mechanical = 10 * abs_spec(delta as int);
            match layout {
                Some(t) => spec_cap_u64(spec_motor_latency_max_ps(t, 4) / 1000 + mechanical),
                None => 200_000,
            }
        },
        Decision::SwitchPayloadMode => match layout {
            Some(t) => spec_path_or_default_ns(
                t,
                seq![ComponentId::MainProcessor, ComponentId::SensorHub, ComponentId::Camera],
                100_000,
            ),
            None => 100_000,
        },
        Decision::EnhanceCommsReliability => match layout {
            Some(t) => spec_path_or_default_ns(
                t,
                seq![
                    ComponentId::MainProcessor,
                    ComponentId::CommunicationHub,
                    ComponentId::RadioLink,
                ],
                150_000,
            ),
            None => 150_000,
        },
        Decision::PrepareMeshNetworking => match layout {
            Some(t) => spec_cap_u64(
                2 * spec_path_or_default_ns(
                    t,
                    seq![
                        ComponentId::MainProcessor,
                        ComponentId::CommunicationHub,
                        ComponentId::RadioLink,
                    ],
                    150_000,
                ),
            ),
            None => 300_000,
        },
    }
}

/// Absolute value.
pub open spec fn abs_spec(v: int) -> int {
    if v < 0 {
        -v
    } else {
        v
    }
}

/// The perception-decision loop: the last cycle's duration, the
/// sensor-fusion collaborator, the cached decision, the optional shared
/// layout, and the environment predictor.
#[derive(Debug)]
pub struct OodaLoop {
    pub last_cycle_time_ns: u64,
    pub sensor_fusion: SensorFusion,
    pub decision_cache: Option<Decision>,
    pub physical_layout: Option<PhysicalTopology>,
    pub environment_model: MarkovEnvironmentModel,
}

impl OodaLoop {
    /// The environment model is valid and any attached layout is well
    /// formed.
    pub open spec fn wf(self) -> bool {
        &&& self.environment_model.wf()
        &&& (self.physical_layout matches Some(t) ==> t.wf())
    }

    /// A loop over the stock seven-state environment model, starting
    /// clear, with nothing cached and no layout attached.
    pub fn new() -> (r: OodaLoop)
        ensures
            r.wf(),
            r.last_cycle_time_ns == 0,
            r.decision_cache is None,
            r.physical_layout is None,
            r.environment_model.current_state_idx == 0,
            r.environment_model.states@.len() == 7,
            r.environment_model.states@[0]@ == "clear"@,
            r.environment_model.states@[1]@ == "light_rain"@,
            r.environment_model.states@[2]@ == "heavy_rain"@,
            r.environment_model.states@[3]@ == "fog"@,
            r.environment_model.states@[4]@ == "urban_canyon"@,
            r.environment_model.states@[5]@ == "forest"@,
            r.environment_model.states@[6]@ == "mountainous"@,
    {
        let mut env_states: Vec<String> = Vec::new();
        env_states.push(String::from_str("clear"));
        env_states.push(String::from_str("light_rain"));
        env_states.push(String::from_str("heavy_rain"));
        env_states.push(String::from_str("fog"));
        env_states.push(String::from_str("urban_canyon"));
        env_states.push(String::from_str("forest"));
        env_states.push(String::from_str("mountainous"));

        let mut matrix: Vec<Vec<u32>> = Vec::new();
        matrix.push(row7(700_000, 100_000, 50_000, 50_000, 50_000, 30_000, 20_000));
        matrix.push(row7(200_000, 500_000, 200_000, 50_000, 20_000, 20_000, 10_000));
        matrix.push(row7(100_000, 300_000, 400_000, 100_000, 50_000, 30_000, 20_000));
        matrix.push(row7(100_000, 100_000, 100_000, 500_000, 100_000, 50_000, 50_000));
        matrix.push(row7(50_000, 50_000, 50_000, 50_000, 700_000, 50_000, 50_000));
        matrix.push(row7(50_000, 50_000, 50_000, 50_000, 50_000, 700_000, 50_000));
        matrix.push(row7(50_000, 50_000, 50_000, 50_000, 50_000, 50_000, 700_000));

        proof {
            assert forall|i: int| 0 <= i < matrix@.len() implies (#[trigger] matrix@[i])@.len() == 7
                && row_sum_ok(matrix@[i]@) by {
                lemma_row_sum7(matrix@[i]@);
            }
            lemma_matrix_scan_ok(7, matrix@);
        }

        let environment_model = match MarkovEnvironmentModel::new(&env_states, matrix, 0) {
            Ok(m) => m,
            Err(_) => {
                proof {
                    assert(false);
                }
                vstd::pervasive::unreached()
            },
        };
        OodaLoop {
            last_cycle_time_ns: 0,
            sensor_fusion: SensorFusion {  },
            decision_cache: None,
            physical_layout: None,
            environment_model,
        }
    }

    /// A loop as `new` builds it, with the given layout attached.
    pub fn with_physical_layout(layout: PhysicalTopology) -> (r: OodaLoop)
        requires
            layout.wf(),
        ensures
            r.wf(),
            r.last_cycle_time_ns == 0,
            r.decision_cache is None,
            r.physical_layout == Some(layout),
            r.environment_model.current_state_idx == 0,
            r.environment_model.states@.len() == 7,
            r.environment_model.states@[4]@ == "urban_canyon"@,
    {
        let mut ooda = OodaLoop::new();
        ooda.physical_layout = Some(layout);
        ooda
    }

    /// Classifies the operating environment from the snapshot and the
    /// assessed situation, by the strict priority rule of
    /// `spec_classify`. The returned index is always a valid state.
    pub fn classify_environment(&self, situation: &Situation, data: &SensorData) -> (r: usize)
        requires
            self.wf(),
        ensures
            r == spec_classify(
                self.environment_model.states@.len() as int,
                data.radar_contacts@,
                data.gps is Some,
                situation.threat_level,
            ),
            r < self.environment_model.states@.len(),
    {
        let num_states = self.environment_model.states.len();

        if data.radar_contacts.len() > 3 && data.gps.is_none() {
            return if 4 <= num_states - 1 {
                4
            } else {
                num_states - 1
            };
        }
        if data.radar_contacts.len() > 1 && data.radar_contacts.len() <= 3 && data.gps.is_some() {
            return if 5 <= num_states - 1 {
                5
            } else {
                num_states - 1
            };
        }
        let mut any_fast = false;
        let mut i: usize = 0;
        while i < data.radar_contacts.len()
            invariant
                i <= data.radar_contacts@.len(),
                any_fast == spec_any_fast_contact(data.radar_contacts@.take(i as int)),
            decreases data.radar_contacts@.len() - i,
        {
            let fast_here = data.radar_contacts[i].relative_speed_mm_s > 30_000;
            proof {
                let whole = data.radar_contacts@;
                let pre = whole.take(i as int + 1);
                if fast_here {
                    assert(pre[i as int] == whole[i as int]);
                    assert(spec_any_fast_contact(pre));
                } else if !any_fast {
                    if spec_any_fast_contact(pre) {
                        let j = choose|j: int|
                            0 <= j < pre.len() && (#[trigger] pre[j]).relative_speed_mm_s > 30_000;
                        if j < i {
                            assert(whole.take(i as int)[j] == pre[j]);
                            assert(spec_any_fast_contact(whole.take(i as int)));
                        } else {
                            assert(pre[j] == whole[i as int]);
                        }
                        assert(false);
                    }
                } else {
                    let j = choose|j: int|
                        0 <= j < whole.take(i as int).len() && (#[trigger] whole.take(i as int)[j]).relative_speed_mm_s
                            > 30_000;
                    assert(pre[j] == whole.take(i as int)[j]);
                    assert(spec_any_fast_contact(pre));
                }
            }
            if fast_here {
                any_fast = true;
            }
            i = i + 1;
        }
        proof {
            assert(data.radar_contacts@.take(data.radar_contacts@.len() as int)
                =~= data.radar_contacts@);
        }
        if any_fast {
            return if 6 <= num_states - 1 {
                6
            } else {
                num_states - 1
            };
        }
        match situation.threat_level {
            ThreatLevel::High => {
                if 2 <= num_states - 1 {
                    2
                } else {
                    num_states - 1
                }
            },
            ThreatLevel::Medium => {
                if data.radar_contacts.len() == 0 {
                    if 3 <= num_states - 1 {
                        3
                    } else {
                        num_states - 1
                    }
                } else {
                    if 1 <= num_states - 1 {
                        1
                    } else {
                        num_states - 1
                    }
                }
            },
            ThreatLevel::Low => 0,
        }
    }

    /// The decide step: reuses a compatible cached decision, otherwise
    /// blends the baseline with the predictive adjustment, caching and
    /// returning the result; the cache always ends up holding the
    /// returned decision. Reuse checks only the threat level, so a
    /// predictive preparation can outlive the prediction that produced
    /// it while the threat level holds still; that reuse key is a
    /// deliberate, documented limitation.
    pub fn decide_with_prediction(
        &mut self,
        situation: &Situation,
        payload: &PayloadManager,
        predicted_env: &str,
    ) -> (d: Decision)
        ensures
            d == spec_decide(
                old(self).decision_cache,
                situation.threat_level,
                predicted_env@,
            ),
            final(self).decision_cache == Some(d),
            final(self).environment_model == old(self).environment_model,
            final(self).physical_layout == old(self).physical_layout,
            final(self).last_cycle_time_ns == old(self).last_cycle_time_ns,
    {
        if let Some(cached) = &self.decision_cache {
            if cached.matches(situation) {
                return *cached;
            }
        }
        let current_decision = DecisionMaker::make(situation, payload);
        let adjusted_decision = if str_eq(predicted_env, "heavy_rain") || str_eq(
            predicted_env,
            "fog",
        ) {
            Decision::EnhanceCommsReliability
        } else if str_eq(predicted_env, "urban_canyon") {
            Decision::PrepareMeshNetworking
        } else {
            current_decision
        };
        if adjusted_decision != current_decision && situation.threat_level == ThreatLevel::Low {
            self.decision_cache = Some(adjusted_decision);
            return adjusted_decision;
        }
        self.decision_cache = Some(current_decision);
        current_decision
    }
}

/// The sum of a seven-element row equals the sum of its entries.
proof fn lemma_row_sum7(s: Seq<u32>)
    requires
        s.len() == 7,
    ensures
        row_sum(s) == s[0] + s[1] + s[2] + s[3] + s[4] + s[5] + s[6],
{
    let s6 = s.drop_last();
    let s5 = s6.drop_last();
    let s4 = s5.drop_last();
    let s3 = s4.drop_last();
    let s2 = s3.drop_last();
    let s1 = s2.drop_last();
    let s0 = s1.drop_last();
    assert(s0.len() == 0);
    assert(row_sum(s) == row_sum(s6) + s[6]);
    assert(row_sum(s6) == row_sum(s5) + s[5]);
    assert(row_sum(s5) == row_sum(s4) + s[4]);
    assert(row_sum(s4) == row_sum(s3) + s[3]);
    assert(row_sum(s3) == row_sum(s2) + s[2]);
    assert(row_sum(s2) == row_sum(s1) + s[1]);
    assert(row_sum(s1) == row_sum(s0) + s[0]);
    assert(row_sum(s0) == 0);
}

/// A matrix whose rows all check out scans clean.
proof fn lemma_matrix_scan_ok(n: int, rows: Seq<Vec<u32>>)
    requires
        forall|i: int|
            0 <= i < rows.len() ==> (#[trigger] rows[i])@.len() == n && row_sum_ok(rows[i]@),
    ensures
        spec_matrix_error(n, rows) is None,
    decreases rows.len(),
{
    if rows.len() > 0 {
        assert forall|i: int|
            0 <= i < rows.drop_last().len() implies (#[trigger] rows.drop_last()[i])@.len() == n
            && row_sum_ok(rows.drop_last()[i]@) by {
            assert(rows.drop_last()[i] == rows[i]);
        }
        lemma_matrix_scan_ok(n, rows.drop_last());
        assert(rows.last() == rows[rows.len() - 1]);
    }
}

/// A seven-entry probability row.
fn row7(a: u32, b: u32, c: u32, d: u32, e: u32, f: u32, g: u32) -> (r: Vec<u32>)
    ensures
        r@.len() == 7,
        r@[0] == a,
        r@[1] == b,
        r@[2] == c,
        r@[3] == d,
        r@[4] == e,
        r@[5] == f,
        r@[6] == g,
{
    let mut r: Vec<u32> = Vec::new();
    r.push(a);
    r.push(b);
    r.push(c);
    r.push(d);
    r.push(e);
    r.push(f);
    r.push(g);
    r
}

/// Whether two string slices hold the same characters.
fn str_eq(a: &str, b: &str) -> (r: bool)
    ensures
        r == (a@ == b@),
{
    let sa = a.to_owned();
    let sb = b.to_owned();
    sa.eq(&sb)
}

} // verus!

verus! {

impl OodaLoop {
    /// The observe step: a placeholder inertial reading at standard
    /// gravity, no satellite fix or range reading, the hub's live radar
    /// contacts, the count of operators heard within five seconds of
    /// `now_ns`, and the payload's status.
    fn observe(&self, comms: &CommunicationHub, payload: &PayloadManager, now_ns: u64) -> (d:
        SensorData)
        ensures
            d.gps is None,
            d.lidar_range_cm is None,
            d.radar_contacts@ == comms.radar_contacts@,
            d.operator_messages == spec_fresh_operator_count(comms.operators@, now_ns as int),
            d.payload_status.power_mw == payload.power_consumption_mw,
            d.payload_status.operational == payload.operational,
            d.imu.timestamp == now_ns,
    {
        let mut fresh: usize = 0;
        let mut i: usize = 0;
        while i < comms.operators.len()
            invariant
                i <= comms.operators@.len(),
                fresh == spec_fresh_operator_count(comms.operators@.take(i as int), now_ns as int),
                fresh <= i,
            decreases comms.operators@.len() - i,
        {
            proof {
                let pre = comms.operators@.take(i as int + 1);
                assert(pre.drop_last() =~= comms.operators@.take(i as int));
                assert(pre.last() == comms.operators@[i as int]);
            }
            match &comms.operators[i].last_heartbeat {
                Some(h) => {
                    if *h > now_ns || now_ns - *h < 5_000_000_000 {
                        fresh = fresh + 1;
                    }
                },
                None => {},
            }
            i = i + 1;
        }
        proof {
            assert(comms.operators@.take(comms.operators@.len() as int) =~= comms.operators@);
        }
        let status = payload.get_status();
        SensorData {
            imu: IMUReading {
                accel_mm_s2: Vec3i { x: 0, y: 0, z: 9810 },
                gyro_mrad_s: Vec3i { x: 0, y: 0, z: 0 },
                timestamp: now_ns,
            },
            gps: None,
            lidar_range_cm: None,
            radar_contacts: crate::comms::clone_contacts(&comms.radar_contacts),
            operator_messages: fresh,
            payload_status: PayloadStatus { power_mw: status.0, operational: status.1 },
        }
    }

    /// The orient step: the sensor-fusion collaborator assesses the
    /// snapshot's threat level.
    fn orient(&mut self, data: &SensorData) -> (r: Situation)
        ensures
            r.threat_level == spec_threat_level(
                data.radar_contacts@.len() as int,
                data.operator_messages as int,
            ),
            final(self).environment_model == old(self).environment_model,
            final(self).decision_cache == old(self).decision_cache,
            final(self).physical_layout == old(self).physical_layout,
            final(self).last_cycle_time_ns == old(self).last_cycle_time_ns,
    {
        self.sensor_fusion.analyze(data)
    }

    /// The act step: performs the decision's side effect on the
    /// collaborators and returns the simulated actuation delay of
    /// `spec_act_delay_ns`.
    fn act(
        &self,
        decision: Decision,
        fc: &mut FlightController,
        payload: &mut PayloadManager,
        comms: &mut CommunicationHub,
    ) -> (delay_ns: u64)
        requires
            self.wf(),
            old(comms).wf(),
        ensures
            final(comms).wf(),
            delay_ns == spec_act_delay_ns(self.physical_layout, decision),
            final(comms).radar_contacts@ == old(comms).radar_contacts@,
            final(comms).operators@ == old(comms).operators@,
            final(comms).physical_topology == old(comms).physical_topology,
            decision matches Decision::ChangeAltitude(delta) ==> final(fc).altitude_offset_cm
                == crate::flight::spec_sat_add_i64(
                old(fc).altitude_offset_cm as int,
                delta as int,
            ),
            decision == Decision::SwitchPayloadMode ==> final(payload).operational == !old(payload).operational,
            decision == Decision::EnhanceCommsReliability ==> crate::comms::spec_links_adjusted(
                *old(comms),
                *final(comms),
                CommsPriority::Medium,
            ),
            decision == Decision::PrepareMeshNetworking ==> (final(comms).primary_link.link_type matches LinkType::WiFiDirect { bandwidth_mbps, channel }
                && bandwidth_mbps == 100 && channel == 36),
    {
        match decision {
            Decision::ChangeAltitude(delta) => {
                fc.adjust_altitude(delta);
                let mechanical_ns: u128 = {
                    let magnitude: u128 = if delta < 0 {
                        (-(delta as i128)) as u128
                    } else {
                        delta as u128
                    };
                    magnitude * 10
                };
                match &self.physical_layout {
                    Some(layout) => {
                        let mut max_ps: u128 = 0;
                        let mut i: usize = 0;
                        while i < 4
                            invariant
                                self.wf(),
                                self.physical_layout matches Some(l) && l == layout,
                                layout.wf(),
                                i <= 4,
                                max_ps == spec_motor_latency_max_ps(*layout, i as nat),
                                max_ps <= 1_050_000_000,
                            decreases 4 - i,
                        {
                            let mut path: Vec<ComponentId> = Vec::new();
                            path.push(ComponentId::FlightController);
                            path.push(ComponentId::MotorController(i as u8));
                            proof {
                                assert(path@ =~= seq![
                                    ComponentId::FlightController,
                                    ComponentId::MotorController(i as u8),
                                ]);
                            }
                            let here: u128 = match layout.get_path_latency(path.as_slice()) {
                                Ok(v) => {
                                    proof {
                                        crate::topology::lemma_path_latency_bounds(
                                            *layout,
                                            path@,
                                        );
                                    }
                                    v
                                },
                                Err(_) => 0,
                            };
                            if here > max_ps {
                                max_ps = here;
                            }
                            i = i + 1;
                        }
                        let total: u128 = max_ps / 1000 + mechanical_ns;
                        if total > 0xffff_ffff_ffff_ffff_u128 {
                            0xffff_ffff_ffff_ffff
                        } else {
                            total as u64
                        }
                    },
                    None => 200_000,
                }
            },
            Decision::SwitchPayloadMode => {
                payload.toggle_operational();
                match &self.physical_layout {
                    Some(layout) => {
                        let mut path: Vec<ComponentId> = Vec::new();
                        path.push(ComponentId::MainProcessor);
                        path.push(ComponentId::SensorHub);
                        path.push(ComponentId::Camera);
                        proof {
                            assert(path@ =~= seq![
                                ComponentId::MainProcessor,
                                ComponentId::SensorHub,
                                ComponentId::Camera,
                            ]);
                        }
                        match layout.get_path_latency(path.as_slice()) {
                            Ok(v) => {
                                proof {
                                    crate::topology::lemma_path_latency_bounds(*layout, path@);
                                }
                                (v / 1000) as u64
                            },
                            Err(_) => 100_000,
                        }
                    },
                    None => 100_000,
                }
            },
            Decision::EnhanceCommsReliability => {
                comms.adjust_links(CommsPriority::Medium);
                match &self.physical_layout {
                    Some(layout) => {
                        let mut path: Vec<ComponentId> = Vec::new();
                        path.push(ComponentId::MainProcessor);
                        path.push(ComponentId::CommunicationHub);
                        path.push(ComponentId::RadioLink);
                        proof {
                            assert(path@ =~= seq![
                                ComponentId::MainProcessor,
                                ComponentId::CommunicationHub,
                                ComponentId::RadioLink,
                            ]);
                        }
                        match layout.get_path_latency(path.as_slice()) {
                            Ok(v) => {
                                proof {
                                    crate::topology::lemma_path_latency_bounds(*layout, path@);
                                }
                                (v / 1000) as u64
                            },
                            Err(_) => 150_000,
                        }
                    },
                    None => 150_000,
                }
            },
            Decision::PrepareMeshNetworking => {
                comms.primary_link.link_type = LinkType::WiFiDirect {
                    bandwidth_mbps: 100,
                    channel: 36,
                };
                match &self.physical_layout {
                    Some(layout) => {
                        let mut path: Vec<ComponentId> = Vec::new();
                        path.push(ComponentId::MainProcessor);
                        path.push(ComponentId::CommunicationHub);
                        path.push(ComponentId::RadioLink);
                        proof {
                            assert(path@ =~= seq![
                                ComponentId::MainProcessor,
                                ComponentId::CommunicationHub,
                                ComponentId::RadioLink,
                            ]);
                        }
                        let base: u64 = match layout.get_path_latency(path.as_slice()) {
                            Ok(v) => {
                                proof {
                                    crate::topology::lemma_path_latency_bounds(*layout, path@);
                                }
                                (v / 1000) as u64
                            },
                            Err(_) => 150_000,
                        };
                        let doubled: u128 = (base as u128) * 2;
                        if doubled > 0xffff_ffff_ffff_ffff_u128 {
                            0xffff_ffff_ffff_ffff
                        } else {
                            doubled as u64
                        }
                    },
                    None => 300_000,
                }
            },
        }
    }

    /// One full perception-decision cycle: observe the collaborators,
    /// orient, classify the environment and feed it to the predictor,
    /// predict the next environment, decide under that prediction, act,
    /// and record the wall-clock span including the simulated
    /// observation and actuation delays.
    pub fn execute_cycle<C: Clock>(
        &mut self,
        comms: &mut CommunicationHub,
        payload: &mut PayloadManager,
        flight_controller: &mut FlightController,
        clock: &mut C,
    ) -> (cycle_ns: u64)
        requires
            old(self).wf(),
            old(comms).wf(),
        ensures
            final(self).wf(),
            final(comms).wf(),
            final(self).decision_cache is Some,
            cycle_ns == final(self).last_cycle_time_ns,
            final(self).environment_model.states@ == old(self).environment_model.states@,
            final(self).physical_layout == old(self).physical_layout,
            final(comms).radar_contacts@ == old(comms).radar_contacts@,
            exists|now_ns: int, predicted: int|
                #![trigger spec_fresh_operator_count(old(comms).operators@, now_ns), old(self).environment_model.states@[predicted]]
                {
                    let threat = spec_threat_level(
                        old(comms).radar_contacts@.len() as int,
                        spec_fresh_operator_count(old(comms).operators@, now_ns),
                    );
                    let states = old(self).environment_model.states@;
                    let d = spec_decide(old(self).decision_cache, threat, states[predicted]@);
                    &&& 0 <= predicted < states.len()
                    &&& final(self).environment_model.current_state_idx == spec_classify(
                        states.len() as int,
                        old(comms).radar_contacts@,
                        false,
                        threat,
                    )
                    &&& final(self).decision_cache == Some(d)
                    &&& (d matches Decision::ChangeAltitude(delta) ==> final(flight_controller).altitude_offset_cm == crate::flight::spec_sat_add_i64(
                        old(flight_controller).altitude_offset_cm as int,
                        delta as int,
                    ))
                    &&& (d == Decision::SwitchPayloadMode ==> final(payload).operational == !old(payload).operational)
                    &&& (d == Decision::EnhanceCommsReliability ==> final(comms).primary_link.link_type == (LinkType::TimeTriggered {
                        cycle_time_us: 10000,
                        slot_count: 8,
                    }))
                    &&& (d == Decision::PrepareMeshNetworking ==> (final(comms).primary_link.link_type matches LinkType::WiFiDirect {
                        bandwidth_mbps,
                        channel,
                    } && bandwidth_mbps == 100 && channel == 36))
                },
    {
        let start_ns = clock.now_ns();

        // Share the layout with the hub when it has none.
        if let Some(layout) = &self.physical_layout {
            if comms.physical_topology.is_none() {
                comms.set_physical_topology(layout.duplicate());
            }
        }

        let sensor_data = self.observe(comms, payload, start_ns);

        // Latency of gathering the sensor data over the layout.
        let observation_latency_ns: u64 = match &self.physical_layout {
            Some(layout) => {
                let mut latency: u64 = 0;
                let mut path: Vec<ComponentId> = Vec::new();
                path.push(ComponentId::Imu);
                path.push(ComponentId::SensorHub);
                path.push(ComponentId::MainProcessor);
                if let Ok(v) = layout.get_path_latency(path.as_slice()) {
                    proof {
                        crate::topology::lemma_path_latency_bounds(*layout, path@);
                    }
                    latency = (v / 1000) as u64;
                }
                if sensor_data.gps.is_some() {
                    let mut gps_path: Vec<ComponentId> = Vec::new();
                    gps_path.push(ComponentId::Gps);
                    gps_path.push(ComponentId::SensorHub);
                    gps_path.push(ComponentId::MainProcessor);
                    if let Ok(v) = layout.get_path_latency(gps_path.as_slice()) {
                        proof {
                            crate::topology::lemma_path_latency_bounds(*layout, gps_path@);
                        }
                        let add = (v / 1000) as u64;
                        latency = if add > u64::MAX - latency {
                            u64::MAX
                        } else {
                            latency + add
                        };
                    }
                }
                latency
            },
            None => 50_000,
        };
        clock.wait_ns(observation_latency_ns);

        let situation = self.orient(&sensor_data);

        let current_env_state = self.classify_environment(&situation, &sensor_data);
        self.environment_model.update_state(Some(current_env_state));
        proof {
            assert(current_env_state == spec_classify(
                old(self).environment_model.states@.len() as int,
                old(comms).radar_contacts@,
                false,
                spec_threat_level(
                    old(comms).radar_contacts@.len() as int,
                    spec_fresh_operator_count(old(comms).operators@, start_ns as int),
                ),
            ));
        }

        let predicted_state_idx = self.environment_model.predict_next_state();
        let predicted_env = self.environment_model.get_state_name(predicted_state_idx).to_owned();
        let ghost cache_before = self.decision_cache;

        let decision = self.decide_with_prediction(&situation, payload, predicted_env.as_str());
        proof {
            assert(cache_before == old(self).decision_cache);
            assert(predicted_env@ == old(self).environment_model.states@[
                predicted_state_idx as int
            ]@);
            assert(decision == spec_decide(
                old(self).decision_cache,
                spec_threat_level(
                    old(comms).radar_contacts@.len() as int,
                    spec_fresh_operator_count(old(comms).operators@, start_ns as int),
                ),
                old(self).environment_model.states@[predicted_state_idx as int]@,
            ));
        }

        let action_latency_ns = self.act(decision, flight_controller, payload, comms);
        clock.wait_ns(action_latency_ns);
        proof {
            let now0 = start_ns as int;
            let p0 = predicted_state_idx as int;
            assert(spec_fresh_operator_count(old(comms).operators@, now0) >= 0 || true);
            assert(old(self).environment_model.states@[p0] == old(self).environment_model.states@[p0]);
        }

        let end_ns = clock.now_ns();
        self.last_cycle_time_ns = if end_ns >= start_ns {
            end_ns - start_ns
        } else {
            0
        };
        self.last_cycle_time_ns
    }
}

} // verus!
