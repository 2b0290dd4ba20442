//! The payload bay: what is mounted and whether it is running.
//!
//! Power draw is carried in milliwatts.

use vstd::prelude::*;
use crate::sensor::{Situation, ThreatLevel};

verus! {

/// The mounted payload and its parameters.
#[derive(Debug, Clone)]
pub enum PayloadType {
    SurveillanceCamera { resolution_mpx: u32, zoom_level: u8, thermal_capable: bool },
    LidarScanner { range_m: u32, point_cloud_density: u32 },
    CargoContainer { max_weight_kg: u32, secure_locking: bool },
}

/// Power a payload draws when activated, in milliwatts.
pub open spec fn spec_activation_power_mw(p: PayloadType) -> int {
    match p {
        PayloadType::SurveillanceCamera { .. } => 45_500,
        PayloadType::LidarScanner { .. } => 120_000,
        PayloadType::CargoContainer { .. } => 5_000,
    }
}

/// `x` capped at the largest `u64`.
pub open spec fn sat_u64_cap(x: int) -> int {
    if x > u64::MAX {
        u64::MAX as int
    } else {
        x
    }
}

/// Manages the payload: the mounted device, its current draw, and whether
/// it is operational.
#[derive(Debug, Clone)]
pub struct PayloadManager {
    pub current_payload: Option<PayloadType>,
    pub power_consumption_mw: u64,
    pub operational: bool,
}

impl PayloadManager {
    /// A manager holding `payload`, powered down.
    pub fn new(payload: Option<PayloadType>) -> (r: PayloadManager)
        ensures
            r.current_payload == payload,
            r.power_consumption_mw == 0,
            !r.operational,
    {
        PayloadManager { current_payload: payload, power_consumption_mw: 0, operational: false }
    }

    /// Powers the mounted payload up: its activation draw applies and it
    /// becomes operational. Without a payload nothing changes.
    pub fn activate(&mut self)
        ensures
            final(self).current_payload == old(self).current_payload,
            old(self).current_payload matches Some(p) ==> final(self).power_consumption_mw
                == spec_activation_power_mw(p) && final(self).operational,
            old(self).current_payload is None ==> *final(self) == *old(self),
    {
        match &self.current_payload {
            Some(payload) => {
                self.power_consumption_mw = match payload {
                    PayloadType::SurveillanceCamera { .. } => 45_500,
                    PayloadType::LidarScanner { .. } => 120_000,
                    PayloadType::CargoContainer { .. } => 5_000,
                };
                self.operational = true;
            },
            None => {},
        }
    }

    /// Current draw and operational flag.
    pub fn get_status(&self) -> (r: (u64, bool))
        ensures
            r.0 == self.power_consumption_mw,
            r.1 == self.operational,
    {
        (self.power_consumption_mw, self.operational)
    }

    /// Flips the operational state: turning off zeroes the draw, turning
    /// on applies the mounted payload's activation draw.
    pub fn toggle_operational(&mut self)
        ensures
            final(self).current_payload == old(self).current_payload,
            final(self).operational == !old(self).operational,
            old(self).operational ==> final(self).power_consumption_mw == 0,
            !old(self).operational ==> match old(self).current_payload {
                Some(p) => final(self).power_consumption_mw == spec_activation_power_mw(p),
                None => final(self).power_consumption_mw == old(self).power_consumption_mw,
            },
    {
        self.operational = !self.operational;
        if !self.operational {
            self.power_consumption_mw = 0;
        } else {
            self.activate();
            self.operational = true;
        }
    }

    /// Drops to standby: not operational, draw reduced to three tenths.
    pub fn standby(&mut self)
        ensures
            final(self).current_payload == old(self).current_payload,
            !final(self).operational,
            final(self).power_consumption_mw == old(self).power_consumption_mw * 3 / 10,
    {
        self.operational = false;
        let p = self.power_consumption_mw;
        proof {
            assert(p * 3 <= 0xffff_ffff_ffff_ffffint * 3) by (nonlinear_arith)
                requires
                    p <= 0xffff_ffff_ffff_ffffu64,
            ;
        }
        self.power_consumption_mw = ((p as u128) * 3 / 10) as u64;
    }

    /// When enabled, activates the payload and raises its draw by one
    /// fifth for high-alert operation; when disabled, does nothing.
    pub fn set_high_alert_mode(&mut self, enabled: bool)
        ensures
            final(self).current_payload == old(self).current_payload,
            !enabled ==> *final(self) == *old(self),
            enabled ==> match old(self).current_payload {
                Some(p) => final(self).operational && final(self).power_consumption_mw
                    == spec_activation_power_mw(p) * 6 / 5,
                None => final(self).operational == old(self).operational && final(self).power_consumption_mw == sat_u64_cap(old(self).power_consumption_mw * 6 / 5),
            },
    {
        if enabled {
            self.activate();
            proof {
                assert(self.power_consumption_mw * 6 <= 0xffff_ffff_ffff_ffffint * 6)
                    by (nonlinear_arith)
                    requires
                        self.power_consumption_mw <= 0xffff_ffff_ffff_ffffu64,
                ;
            }
            let scaled: u128 = (self.power_consumption_mw as u128) * 6 / 5;
            self.power_consumption_mw = if scaled > 0xffff_ffff_ffff_ffff_u128 {
                0xffff_ffff_ffff_ffff
            } else {
                scaled as u64
            };
        }
    }

    /// Adapts the payload to the assessed threat: high alert for a
    /// surveillance camera under high threat, plain activation under
    /// medium threat, standby under low threat when drawing over the
    /// 50 watt idle ceiling.
    pub fn ooda_configure(&mut self, situation: &Situation)
        ensures
            final(self).current_payload == old(self).current_payload,
            situation.threat_level == ThreatLevel::High ==> match old(self).current_payload {
                Some(PayloadType::SurveillanceCamera { .. }) => final(self).operational && final(self).power_consumption_mw == 45_500int * 6 / 5,
                _ => *final(self) == *old(self),
            },
            situation.threat_level == ThreatLevel::Medium ==> (old(self).current_payload matches Some(p) ==> final(self).power_consumption_mw
                == spec_activation_power_mw(p) && final(self).operational),
            situation.threat_level == ThreatLevel::Low ==> {
                if old(self).power_consumption_mw > 50_000 {
                    !final(self).operational && final(self).power_consumption_mw == old(self).power_consumption_mw * 3 / 10
                } else {
                    *final(self) == *old(self)
                }
            },
    {
        match situation.threat_level {
            ThreatLevel::High => {
                let is_camera = match &self.current_payload {
                    Some(PayloadType::SurveillanceCamera { .. }) => true,
                    _ => false,
                };
                if is_camera {
                    self.set_high_alert_mode(true);
                }
            },
            ThreatLevel::Medium => {
                self.activate();
            },
            ThreatLevel::Low => {
                if self.power_consumption_mw > 50_000 {
                    self.standby();
                }
            },
        }
    }
}

} // verus!
