//! The declarative constraint-to-architecture mapping and the cost
//! optimizer.

use vstd::prelude::*;
use crate::models::{
    AxisGains, CommsSystem, DataFusion, FlightControllerType, KalmanConfig, PIDParams, Processor,
    SensorSuite, UAVArchitecture, UavConstraints,
};

verus! {

/// The processor a set of constraints selects.
pub open spec fn spec_processor_for(c: UavConstraints) -> Processor {
    if c.secure_comms {
        Processor::XilinxZynqUltraScale
    } else if c.requires_ai {
        Processor::NvidiaJetsonAGXOrin
    } else {
        Processor::QualcommRB5
    }
}

/// The regulator gains a set of constraints selects: conservative gains
/// up to autonomy level two, aggressive gains beyond.
pub open spec fn spec_pid_params_for(c: UavConstraints) -> PIDParams {
    if c.autonomy_level <= 2 {
        PIDParams {
            roll: AxisGains { p_milli: 800, i_milli: 100, d_milli: 50 },
            pitch: AxisGains { p_milli: 800, i_milli: 100, d_milli: 50 },
            yaw: AxisGains { p_milli: 1000, i_milli: 0, d_milli: 100 },
        }
    } else {
        PIDParams {
            roll: AxisGains { p_milli: 1200, i_milli: 200, d_milli: 100 },
            pitch: AxisGains { p_milli: 1200, i_milli: 200, d_milli: 100 },
            yaw: AxisGains { p_milli: 1500, i_milli: 100, d_milli: 200 },
        }
    }
}

/// The flight-control stack a set of constraints selects.
pub open spec fn spec_flight_control_for(c: UavConstraints) -> FlightControllerType {
    if c.autonomy_level <= 2 {
        FlightControllerType::Betaflight
    } else if c.autonomy_level <= 4 {
        FlightControllerType::PX4(spec_pid_params_for(c))
    } else {
        FlightControllerType::Custom(spec_pid_params_for(c))
    }
}

/// The sensor complement a set of constraints selects.
pub open spec fn spec_sensors_for(c: UavConstraints) -> SensorSuite {
    if c.requires_ai {
        SensorSuite::Autonomous
    } else if c.secure_comms {
        SensorSuite::FullNavigation
    } else {
        SensorSuite::GpsEnhanced
    }
}

/// The communication stack a set of constraints selects.
pub open spec fn spec_comms_for(c: UavConstraints) -> CommsSystem {
    if c.secure_comms {
        CommsSystem::MilitaryEncrypted { key_rotation: 24 }
    } else if c.requires_ai {
        CommsSystem::WiFiDirect { bandwidth: 100 }
    } else {
        CommsSystem::MAVLink { version: 2 }
    }
}

/// Maps constraints to an architecture by the selection tables: secure
/// missions take the hardened processor and encrypted comms, AI missions
/// take the accelerator and learned fusion, and autonomy picks the
/// flight stack and gains.
pub fn generate_architecture(constraints: &UavConstraints) -> (r: UAVArchitecture)
    ensures
        r.processor == spec_processor_for(*constraints),
        r.flight_control == spec_flight_control_for(*constraints),
        r.sensors == spec_sensors_for(*constraints),
        r.comms == spec_comms_for(*constraints),
        constraints.requires_ai ==> (r.data_fusion matches DataFusion::DnnFusion(n)
            && n.inference_rate == 30),
        !constraints.requires_ai ==> r.data_fusion == DataFusion::KalmanFilter(
            KalmanConfig {
                process_noise_milli: 100,
                sensor_weight_primary_milli: 700,
                sensor_weight_secondary_milli: 300,
            },
        ),
{
    let data_fusion = if constraints.requires_ai {
        DataFusion::DnnFusion(
            crate::models::NeuralNetworkConfig {
                model_path: String::from_str("models/object_detection.tract"),
                inference_rate: 30,
            },
        )
    } else {
        DataFusion::KalmanFilter(
            KalmanConfig {
                process_noise_milli: 100,
                sensor_weight_primary_milli: 700,
                sensor_weight_secondary_milli: 300,
            },
        )
    };

    let processor = if constraints.secure_comms {
        Processor::XilinxZynqUltraScale
    } else if constraints.requires_ai {
        Processor::NvidiaJetsonAGXOrin
    } else {
        Processor::QualcommRB5
    };

    let pid_params = if constraints.autonomy_level <= 2 {
        PIDParams {
            roll: AxisGains { p_milli: 800, i_milli: 100, d_milli: 50 },
            pitch: AxisGains { p_milli: 800, i_milli: 100, d_milli: 50 },
            yaw: AxisGains { p_milli: 1000, i_milli: 0, d_milli: 100 },
        }
    } else {
        PIDParams {
            roll: AxisGains { p_milli: 1200, i_milli: 200, d_milli: 100 },
            pitch: AxisGains { p_milli: 1200, i_milli: 200, d_milli: 100 },
            yaw: AxisGains { p_milli: 1500, i_milli: 100, d_milli: 200 },
        }
    };

    let flight_control = if constraints.autonomy_level <= 2 {
        FlightControllerType::Betaflight
    } else if constraints.autonomy_level <= 4 {
        FlightControllerType::PX4(pid_params)
    } else {
        FlightControllerType::Custom(pid_params)
    };

    let sensors = if constraints.requires_ai {
        SensorSuite::Autonomous
    } else if constraints.secure_comms {
        SensorSuite::FullNavigation
    } else {
        SensorSuite::GpsEnhanced
    };

    let comms = if constraints.secure_comms {
        CommsSystem::MilitaryEncrypted { key_rotation: 24 }
    } else if constraints.requires_ai {
        CommsSystem::WiFiDirect { bandwidth: 100 }
    } else {
        CommsSystem::MAVLink { version: 2 }
    };

    UAVArchitecture { processor, data_fusion, flight_control, sensors, comms }
}

/// Unit cost of a processor, in dollars.
pub open spec fn spec_processor_cost(p: Processor) -> int {
    match p {
        Processor::XilinxZynqUltraScale => 1200,
        Processor::NvidiaJetsonAGXOrin => 800,
        Processor::QualcommRB5 => 300,
        Processor::IntelCorei7 => 600,
        Processor::RaspberryPiCM4 => 100,
    }
}

/// Unit cost of a processor, in dollars.
fn processor_cost(p: &Processor) -> (r: u32)
    ensures
        r == spec_processor_cost(*p),
{
    match p {
        Processor::XilinxZynqUltraScale => 1200,
        Processor::NvidiaJetsonAGXOrin => 800,
        Processor::QualcommRB5 => 300,
        Processor::IntelCorei7 => 600,
        Processor::RaspberryPiCM4 => 100,
    }
}

/// The position of the cheapest architecture by processor cost, the
/// earliest position winning ties.
pub open spec fn spec_cheapest_index(s: Seq<UAVArchitecture>) -> int
    decreases s.len(),
{
    if s.len() <= 1 {
        0
    } else {
        let rest = spec_cheapest_index(s.drop_last());
        if spec_processor_cost(s.last().processor) < spec_processor_cost(s[rest].processor) {
            s.len() - 1
        } else {
            rest
        }
    }
}

/// The cheapest position is in range and minimal, and nothing before it
/// costs as little.
pub proof fn lemma_cheapest_index(s: Seq<UAVArchitecture>)
    requires
        s.len() >= 1,
    ensures
        0 <= spec_cheapest_index(s) < s.len(),
        forall|j: int|
            0 <= j < s.len() ==> spec_processor_cost((#[trigger] s[j]).processor)
                >= spec_processor_cost(s[spec_cheapest_index(s)].processor),
        forall|j: int|
            0 <= j < spec_cheapest_index(s) ==> spec_processor_cost((#[trigger] s[j]).processor)
                > spec_processor_cost(s[spec_cheapest_index(s)].processor),
    decreases s.len(),
{
    if s.len() > 1 {
        lemma_cheapest_index(s.drop_last());
        assert forall|j: int| 0 <= j < s.len() - 1 implies s.drop_last()[j] == s[j] by {}
    }
}

/// The cheapest architecture by processor cost, the first winning ties.
#[verifier::rlimit(20)]
pub fn optimize_cost(architectures: Vec<UAVArchitecture>) -> (r: UAVArchitecture)
    requires
        architectures@.len() >= 1,
    ensures
        r == architectures@[spec_cheapest_index(architectures@)],
        forall|j: int|
            0 <= j < architectures@.len() ==> spec_processor_cost(
                (#[trigger] architectures@[j]).processor,
            ) >= spec_processor_cost(r.processor),
{
    let mut best: usize = 0;
    let mut best_cost: u32 = processor_cost(&architectures[0].processor);
    let mut i: usize = 1;
    while i < architectures.len()
        invariant
            architectures@.len() >= 1,
            best < i,
            1 <= i <= architectures@.len(),
            best as int == spec_cheapest_index(architectures@.take(i as int)),
            best_cost == spec_processor_cost(architectures@[best as int].processor),
            forall|j: int|
                0 <= j < i ==> spec_processor_cost((#[trigger] architectures@[j]).processor)
                    >= best_cost,
        decreases architectures@.len() - i,
    {
        let cost = processor_cost(&architectures[i].processor);
        proof {
            let pre = architectures@.take(i as int + 1);
            assert(pre.drop_last() =~= architectures@.take(i as int));
            assert(pre.last() == architectures@[i as int]);
            assert(pre[spec_cheapest_index(architectures@.take(i as int))] == architectures@[
                best as int
            ]);
        }
        if cost < best_cost {
            best = i;
            best_cost = cost;
        }
        i = i + 1;
    }
    proof {
        assert(architectures@.take(architectures@.len() as int) =~= architectures@);
        lemma_cheapest_index(architectures@);
    }
    let ghost chosen: int = best as int;
    let mut out: Vec<UAVArchitecture> = architectures;
    let r = out.remove(best);
    proof {
        assert(r == architectures@[chosen]);
    }
    r
}

} // verus!
