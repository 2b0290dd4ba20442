//! Electromagnetic interference between emission sources and the
//! topology's links.
//!
//! Units: emission strength and susceptibility factors are thousandths of
//! the dimensionless values; computed intensities are scaled by 10^9; the
//! resulting interference scores are comparative, not physical.

use vstd::prelude::*;
use crate::topology::{
    ComponentId, ConnectionType, PhysicalTopology, spec_component_of, spec_distance_um,
    sat_add_u64, sat_add,
};

verus! {

/// Cap on a computed emission intensity (an intensity of one million at
/// the 10^9 scale), reached when source and endpoint coincide.
pub const INTENSITY_CAP_E9: u64 = 1_000_000_000_000_000;

/// Largest falloff exponent the model evaluates; steeper falloffs are
/// clamped to it.
pub const MAX_FALLOFF: u8 = 4;

/// The kind of emission a component radiates.
#[derive(Debug, Clone, Copy, PartialEq, Eq, Structural, Hash)]
pub enum EmissionType {
    Magnetic,
    Electrical,
    RadioFrequency(u32),
}

/// A component that radiates: its emission kind, strength in thousandths,
/// and the exponent of the distance falloff.
#[derive(Debug, Clone, Copy, PartialEq, Eq, Structural)]
pub struct EmissionSource {
    pub component: ComponentId,
    pub emission_type: EmissionType,
    /// Relative strength, in thousandths (nominal range 0 to 10_000).
    pub strength_milli: u32,
    /// Inverse-power-law exponent; clamped to `MAX_FALLOFF`.
    pub falloff_rate: u8,
}

/// One row of the susceptibility table.
#[derive(Debug, Clone, Copy, PartialEq, Eq, Structural)]
pub struct SusceptibilityEntry {
    pub component: ComponentId,
    pub emission_type: EmissionType,
    /// Sensitivity factor in thousandths (nominal range 0 to 1_000).
    pub factor_milli: u32,
}

/// The interference score computed for one stored connection.
#[derive(Debug, Clone, Copy, PartialEq, Eq, Structural)]
pub struct InterferenceImpact {
    pub from: ComponentId,
    pub to: ComponentId,
    pub score: u64,
}

/// `base` raised to `e`.
pub open spec fn pow_int(base: int, e: nat) -> int
    decreases e,
{
    if e == 0 {
        1
    } else {
        base * pow_int(base, (e - 1) as nat)
    }
}

/// `x` capped at the largest `u64`.
pub open spec fn sat_u64(x: int) -> int {
    if x > u64::MAX {
        u64::MAX as int
    } else {
        x
    }
}

/// Emission intensity at distance `dist_um`, scaled by 10^9: the strength
/// divided by the distance in centimeters raised to the clamped falloff
/// exponent, and capped. A distance of zero yields the cap.
pub open spec fn spec_intensity_e9(strength_milli: int, falloff_rate: int, dist_um: int) -> int {
    let f = if falloff_rate > MAX_FALLOFF {
        MAX_FALLOFF as int
    } else {
        falloff_rate
    };
    if dist_um == 0 {
        INTENSITY_CAP_E9 as int
    } else {
        let raw = strength_milli * 1_000_000 * pow_int(10_000, f as nat) / pow_int(
            dist_um,
            f as nat,
        );
        if raw > INTENSITY_CAP_E9 {
            INTENSITY_CAP_E9 as int
        } else {
            raw
        }
    }
}

/// First matching susceptibility factor for a component and emission kind,
/// zero when unspecified.
pub open spec fn spec_susceptibility(
    table: Seq<SusceptibilityEntry>,
    id: ComponentId,
    ty: EmissionType,
) -> int
    decreases table.len(),
{
    if table.len() == 0 {
        0
    } else if table[0].component == id && table[0].emission_type == ty {
        table[0].factor_milli as int
    } else {
        spec_susceptibility(table.drop_first(), id, ty)
    }
}

/// Interference a single source contributes to the link between `from`
/// and `to`: the larger of the two endpoint contributions, each being the
/// intensity at the endpoint times its susceptibility in thousandths.
/// Sources sitting on either endpoint, and sources or endpoints that are
/// not registered components, contribute nothing.
pub open spec fn spec_source_contribution(
    topo: PhysicalTopology,
    table: Seq<SusceptibilityEntry>,
    source: EmissionSource,
    from: ComponentId,
    to: ComponentId,
) -> int {
    if source.component == from || source.component == to {
        0
    } else if !topo.spec_has_component(source.component) || !topo.spec_has_component(from)
        || !topo.spec_has_component(to) {
        0
    } else {
        let source_pos = spec_component_of(topo.components@, source.component).position;
        let from_pos = spec_component_of(topo.components@, from).position;
        let to_pos = spec_component_of(topo.components@, to).position;
        let int_from = spec_intensity_e9(
            source.strength_milli as int,
            source.falloff_rate as int,
            spec_distance_um(source_pos, from_pos) as int,
        );
        let int_to = spec_intensity_e9(
            source.strength_milli as int,
            source.falloff_rate as int,
            spec_distance_um(source_pos, to_pos) as int,
        );
        let c_from = sat_u64(
            int_from * spec_susceptibility(table, from, source.emission_type) / 1000,
        );
        let c_to = sat_u64(int_to * spec_susceptibility(table, to, source.emission_type) / 1000);
        if c_from >= c_to {
            c_from
        } else {
            c_to
        }
    }
}

/// Sum of all source contributions for one link, saturating.
pub open spec fn spec_interference_sum(
    topo: PhysicalTopology,
    table: Seq<SusceptibilityEntry>,
    sources: Seq<EmissionSource>,
    from: ComponentId,
    to: ComponentId,
) -> int
    decreases sources.len(),
{
    if sources.len() == 0 {
        0
    } else {
        sat_add_u64(
            spec_interference_sum(topo, table, sources.drop_last(), from, to),
            spec_source_contribution(topo, table, sources.last(), from, to),
        )
    }
}

/// Immunity of the link medium: the accumulated interference scaled by a
/// per-type factor (shielded copper one fifth, fiber one hundredth, PCB
/// trace one half, wireless three halves, bare copper unchanged).
pub open spec fn spec_apply_immunity(ct: ConnectionType, accumulated: int) -> int {
    match ct {
        ConnectionType::Copper { shielded, .. } => {
            if shielded {
                accumulated / 5
            } else {
                accumulated
            }
        },
        ConnectionType::FiberOptic { .. } => accumulated / 100,
        ConnectionType::PcbTrace { .. } => accumulated / 2,
        ConnectionType::Wireless { .. } => sat_u64(accumulated * 3 / 2),
    }
}

/// Emission sources and the susceptibility table of a layout.
#[derive(Debug, Clone)]
pub struct EmcProperties {
    pub sources: Vec<EmissionSource>,
    pub susceptibility: Vec<SusceptibilityEntry>,
}

impl EmcProperties {
    /// An empty profile: no sources, nothing susceptible.
    pub fn new() -> (r: EmcProperties)
        ensures
            r.sources@.len() == 0,
            r.susceptibility@.len() == 0,
    {
        EmcProperties { sources: Vec::new(), susceptibility: Vec::new() }
    }

    /// Registers an emission source.
    pub fn add_emission_source(&mut self, source: EmissionSource)
        ensures
            final(self).sources@ == old(self).sources@.push(source),
            final(self).susceptibility@ == old(self).susceptibility@,
    {
        self.sources.push(source);
    }

    /// Sets the sensitivity of `component` to `emission_type`, replacing
    /// any earlier entry for the pair.
    pub fn set_susceptibility(
        &mut self,
        component: ComponentId,
        emission_type: EmissionType,
        factor_milli: u32,
    )
        ensures
            final(self).sources@ == old(self).sources@,
            spec_susceptibility(final(self).susceptibility@, component, emission_type)
                == factor_milli,
            forall|id: ComponentId, ty: EmissionType|
                !(id == component && ty == emission_type) ==> #[trigger] spec_susceptibility(
                    final(self).susceptibility@,
                    id,
                    ty,
                ) == spec_susceptibility(old(self).susceptibility@, id, ty),
    {
        let mut i: usize = 0;
        while i < self.susceptibility.len()
            invariant
                i <= self.susceptibility@.len(),
                self.susceptibility@ == old(self).susceptibility@,
                self.sources@ == old(self).sources@,
                forall|j: int|
                    0 <= j < i ==> !((#[trigger] self.susceptibility@[j]).component == component
                        && self.susceptibility@[j].emission_type == emission_type),
            decreases self.susceptibility@.len() - i,
        {
            let e = &self.susceptibility[i];
            if e.component == component && e.emission_type == emission_type {
                let ghost before = self.susceptibility@;
                self.susceptibility[i] = SusceptibilityEntry {
                    component,
                    emission_type,
                    factor_milli,
                };
                proof {
                    lemma_susceptibility_update_hit(before, self.susceptibility@, i as int,
                        component, emission_type, factor_milli);
                    assert forall|id: ComponentId, ty: EmissionType|
                        !(id == component && ty == emission_type) implies #[trigger] spec_susceptibility(
                        self.susceptibility@,
                        id,
                        ty,
                    ) == spec_susceptibility(before, id, ty) by {
                        lemma_susceptibility_update_frame(before, self.susceptibility@, i as int,
                            component, emission_type, factor_milli, id, ty);
                    }
                }
                return ;
            }
            i = i + 1;
        }
        let ghost before = self.susceptibility@;
        self.susceptibility.push(SusceptibilityEntry { component, emission_type, factor_milli });
        proof {
            lemma_susceptibility_append_hit(before, component, emission_type, factor_milli);
            assert forall|id: ComponentId, ty: EmissionType|
                !(id == component && ty == emission_type) implies #[trigger] spec_susceptibility(
                self.susceptibility@,
                id,
                ty,
            ) == spec_susceptibility(before, id, ty) by {
                lemma_susceptibility_append_frame(before, component, emission_type, factor_milli,
                    id, ty);
            }
        }
    }
}

/// Replacing the first entry of a pair gives the pair the new factor.
proof fn lemma_susceptibility_update_hit(
    before: Seq<SusceptibilityEntry>,
    after: Seq<SusceptibilityEntry>,
    i: int,
    component: ComponentId,
    emission_type: EmissionType,
    factor_milli: u32,
)
    requires
        0 <= i < before.len(),
        after == before.update(i, SusceptibilityEntry { component, emission_type, factor_milli }),
        forall|j: int|
            0 <= j < i ==> !((#[trigger] before[j]).component == component
                && before[j].emission_type == emission_type),
    ensures
        spec_susceptibility(after, component, emission_type) == factor_milli,
    decreases i,
{
    if i == 0 {
        assert(after[0] == SusceptibilityEntry { component, emission_type, factor_milli });
    } else {
        assert(after[0] == before[0]);
        assert(after.drop_first() =~= before.drop_first().update(
            i - 1,
            SusceptibilityEntry { component, emission_type, factor_milli },
        ));
        lemma_susceptibility_update_hit(
            before.drop_first(),
            after.drop_first(),
            i - 1,
            component,
            emission_type,
            factor_milli,
        );
    }
}

/// Replacing one entry leaves every other pair's lookup unchanged.
proof fn lemma_susceptibility_update_frame(
    before: Seq<SusceptibilityEntry>,
    after: Seq<SusceptibilityEntry>,
    i: int,
    component: ComponentId,
    emission_type: EmissionType,
    factor_milli: u32,
    id: ComponentId,
    ty: EmissionType,
)
    requires
        0 <= i < before.len(),
        after == before.update(i, SusceptibilityEntry { component, emission_type, factor_milli }),
        before[i].component == component,
        before[i].emission_type == emission_type,
        !(id == component && ty == emission_type),
    ensures
        spec_susceptibility(after, id, ty) == spec_susceptibility(before, id, ty),
    decreases i,
{
    if i == 0 {
        assert(after[0].component == component && after[0].emission_type == emission_type);
        assert(!(after[0].component == id && after[0].emission_type == ty));
        assert(!(before[0].component == id && before[0].emission_type == ty));
        assert(after.drop_first() =~= before.drop_first());
    } else {
        assert(after[0] == before[0]);
        assert(after.drop_first() =~= before.drop_first().update(
            i - 1,
            SusceptibilityEntry { component, emission_type, factor_milli },
        ));
        lemma_susceptibility_update_frame(
            before.drop_first(),
            after.drop_first(),
            i - 1,
            component,
            emission_type,
            factor_milli,
            id,
            ty,
        );
    }
}

/// Appending an entry for a pair with no earlier entry gives that pair
/// the new factor.
proof fn lemma_susceptibility_append_hit(
    before: Seq<SusceptibilityEntry>,
    component: ComponentId,
    emission_type: EmissionType,
    factor_milli: u32,
)
    requires
        forall|j: int|
            0 <= j < before.len() ==> !((#[trigger] before[j]).component == component
                && before[j].emission_type == emission_type),
    ensures
        spec_susceptibility(
            before.push(SusceptibilityEntry { component, emission_type, factor_milli }),
            component,
            emission_type,
        ) == factor_milli,
    decreases before.len(),
{
    let e = SusceptibilityEntry { component, emission_type, factor_milli };
    let after = before.push(e);
    if before.len() == 0 {
        assert(after[0] == e);
    } else {
        assert(after[0] == before[0]);
        assert(after.drop_first() =~= before.drop_first().push(e));
        lemma_susceptibility_append_hit(before.drop_first(), component, emission_type,
            factor_milli);
    }
}

/// Appending an entry leaves every other pair's lookup unchanged.
proof fn lemma_susceptibility_append_frame(
    before: Seq<SusceptibilityEntry>,
    component: ComponentId,
    emission_type: EmissionType,
    factor_milli: u32,
    id: ComponentId,
    ty: EmissionType,
)
    requires
        !(id == component && ty == emission_type),
    ensures
        spec_susceptibility(
            before.push(SusceptibilityEntry { component, emission_type, factor_milli }),
            id,
            ty,
        ) == spec_susceptibility(before, id, ty),
    decreases before.len(),
{
    let e = SusceptibilityEntry { component, emission_type, factor_milli };
    let after = before.push(e);
    if before.len() == 0 {
        assert(after[0] == e);
        assert(!(after[0].component == id && after[0].emission_type == ty));
        assert(after.drop_first() =~= Seq::<SusceptibilityEntry>::empty());
        assert(spec_susceptibility(after.drop_first(), id, ty) == 0);
    } else {
        assert(after[0] == before[0]);
        assert(after.drop_first() =~= before.drop_first().push(e));
        lemma_susceptibility_append_frame(before.drop_first(), component, emission_type,
            factor_milli, id, ty);
    }
}

} // verus!

verus! {

/// If nothing before index `i` matches the pair but entry `i` does, the
/// lookup returns entry `i`'s factor.
proof fn lemma_susceptibility_hit(
    table: Seq<SusceptibilityEntry>,
    id: ComponentId,
    ty: EmissionType,
    i: int,
)
    requires
        0 <= i < table.len(),
        table[i].component == id && table[i].emission_type == ty,
        forall|j: int|
            0 <= j < i ==> !((#[trigger] table[j]).component == id && table[j].emission_type == ty),
    ensures
        spec_susceptibility(table, id, ty) == table[i].factor_milli,
    decreases i,
{
    if i > 0 {
        lemma_susceptibility_hit(table.drop_first(), id, ty, i - 1);
    }
}

/// If no entry matches the pair, the lookup yields zero.
proof fn lemma_susceptibility_miss(table: Seq<SusceptibilityEntry>, id: ComponentId, ty: EmissionType)
    requires
        forall|j: int|
            0 <= j < table.len() ==> !((#[trigger] table[j]).component == id
                && table[j].emission_type == ty),
    ensures
        spec_susceptibility(table, id, ty) == 0,
    decreases table.len(),
{
    if table.len() > 0 {
        lemma_susceptibility_miss(table.drop_first(), id, ty);
    }
}

/// `base` raised to a small exponent.
fn pow_small(base: u128, e: u8) -> (r: u128)
    requires
        e <= MAX_FALLOFF,
        base <= 1_000_000_000,
    ensures
        r == pow_int(base as int, e as nat),
        r <= 1_000_000_000_000_000_000_000_000_000_000_000_000,
{
    proof {
        assert(pow_int(base as int, 0) == 1);
        assert(pow_int(base as int, 1) == base * pow_int(base as int, 0));
        assert(pow_int(base as int, 2) == base * pow_int(base as int, 1));
        assert(pow_int(base as int, 3) == base * pow_int(base as int, 2));
        assert(pow_int(base as int, 4) == base * pow_int(base as int, 3));
    }
    if e == 0 {
        return 1;
    }
    if e == 1 {
        return base;
    }
    proof {
        assert((base as int) * (base as int) <= 1_000_000_000_000_000_000int) by (nonlinear_arith)
            requires
                base <= 1_000_000_000,
        ;
    }
    let b2: u128 = base * base;
    if e == 2 {
        return b2;
    }
    proof {
        assert((b2 as int) * (base as int) <= 1_000_000_000_000_000_000int * 1_000_000_000int)
            by (nonlinear_arith)
            requires
                b2 <= 1_000_000_000_000_000_000u128,
                base <= 1_000_000_000,
        ;
    }
    let b3: u128 = b2 * base;
    proof {
        assert(b3 == base * b2) by (nonlinear_arith)
            requires
                b3 == b2 * base,
        ;
    }
    if e == 3 {
        return b3;
    }
    proof {
        assert((b3 as int) * (base as int) <= 1_000_000_000_000_000_000_000_000_000int
            * 1_000_000_000int) by (nonlinear_arith)
            requires
                b3 <= 1_000_000_000_000_000_000_000_000_000u128,
                base <= 1_000_000_000,
        ;
    }
    let b4: u128 = b3 * base;
    proof {
        assert(b4 == base * b3) by (nonlinear_arith)
            requires
                b4 == b3 * base,
        ;
    }
    b4
}

impl EmcProperties {
    /// The susceptibility factor of `id` to `ty`, zero when unspecified.
    fn lookup_susceptibility(&self, id: &ComponentId, ty: &EmissionType) -> (r: u32)
        ensures
            r == spec_susceptibility(self.susceptibility@, *id, *ty),
    {
        let mut i: usize = 0;
        while i < self.susceptibility.len()
            invariant
                i <= self.susceptibility@.len(),
                forall|j: int|
                    0 <= j < i ==> !((#[trigger] self.susceptibility@[j]).component == *id
                        && self.susceptibility@[j].emission_type == *ty),
            decreases self.susceptibility@.len() - i,
        {
            let e = &self.susceptibility[i];
            if e.component == *id && e.emission_type == *ty {
                proof {
                    lemma_susceptibility_hit(self.susceptibility@, *id, *ty, i as int);
                }
                return self.susceptibility[i].factor_milli;
            }
            i = i + 1;
        }
        proof {
            lemma_susceptibility_miss(self.susceptibility@, *id, *ty);
        }
        0
    }
}

/// Emission intensity at a distance, capped; see `spec_intensity_e9`.
fn intensity_e9(strength_milli: u32, falloff_rate: u8, dist_um: u64) -> (r: u64)
    requires
        dist_um <= 1_000_000_000,
    ensures
        r == spec_intensity_e9(strength_milli as int, falloff_rate as int, dist_um as int),
        r <= INTENSITY_CAP_E9,
{
    let f: u8 = if falloff_rate > MAX_FALLOFF {
        MAX_FALLOFF
    } else {
        falloff_rate
    };
    if dist_um == 0 {
        return INTENSITY_CAP_E9;
    }
    let scale = pow_small(10_000, f);
    let denom = pow_small(dist_um as u128, f);
    proof {
        assert(pow_int(10_000int, 0) == 1);
        assert(pow_int(10_000int, 1) == 10_000int * pow_int(10_000int, 0));
        assert(pow_int(10_000int, 2) == 10_000int * pow_int(10_000int, 1));
        assert(pow_int(10_000int, 3) == 10_000int * pow_int(10_000int, 2));
        assert(pow_int(10_000int, 4) == 10_000int * pow_int(10_000int, 3));
        assert(scale <= 10_000_000_000_000_000int);
        assert((strength_milli as int) * 1_000_000 <= 4_294_967_295_000_000int);
        assert((strength_milli as int) * 1_000_000 * (scale as int) <= 4_294_967_295_000_000int
            * 10_000_000_000_000_000int) by (nonlinear_arith)
            requires
                0 <= (strength_milli as int) * 1_000_000 <= 4_294_967_295_000_000int,
                0 <= scale <= 10_000_000_000_000_000int,
        ;
        assert(denom > 0) by {
            assert(pow_int(dist_um as int, 0) == 1);
            assert forall|k: nat| k <= 4 && dist_um >= 1 implies pow_int(dist_um as int, k) >= 1 by {
                lemma_pow_positive(dist_um as int, k);
            }
        }
    }
    let num: u128 = (strength_milli as u128) * 1_000_000 * scale;
    let raw: u128 = num / denom;
    if raw > INTENSITY_CAP_E9 as u128 {
        INTENSITY_CAP_E9
    } else {
        raw as u64
    }
}

/// A power of a positive base is positive.
proof fn lemma_pow_positive(base: int, e: nat)
    requires
        base >= 1,
    ensures
        pow_int(base, e) >= 1,
    decreases e,
{
    if e > 0 {
        lemma_pow_positive(base, (e - 1) as nat);
        assert(base * pow_int(base, (e - 1) as nat) >= 1) by (nonlinear_arith)
            requires
                base >= 1,
                pow_int(base, (e - 1) as nat) >= 1,
        ;
    }
}

impl EmcProperties {
    /// Interference contributed by one source to the link between `from`
    /// and `to`; see `spec_source_contribution`.
    fn source_contribution(
        &self,
        topology: &PhysicalTopology,
        source: &EmissionSource,
        from: &ComponentId,
        to: &ComponentId,
    ) -> (r: u64)
        requires
            topology.wf(),
        ensures
            r == spec_source_contribution(*topology, self.susceptibility@, *source, *from, *to),
    {
        if source.component == *from || source.component == *to {
            return 0;
        }
        let source_comp = match topology.get_component(&source.component) {
            Some(c) => c,
            None => {
                return 0;
            },
        };
        let from_comp = match topology.get_component(from) {
            Some(c) => c,
            None => {
                return 0;
            },
        };
        let to_comp = match topology.get_component(to) {
            Some(c) => c,
            None => {
                return 0;
            },
        };
        let dist_from = source_comp.position.distance_to(&from_comp.position);
        let dist_to = source_comp.position.distance_to(&to_comp.position);
        let int_from = intensity_e9(source.strength_milli, source.falloff_rate, dist_from);
        let int_to = intensity_e9(source.strength_milli, source.falloff_rate, dist_to);
        let sus_from = self.lookup_susceptibility(from, &source.emission_type);
        let sus_to = self.lookup_susceptibility(to, &source.emission_type);
        proof {
            assert((int_from as int) * (sus_from as int) <= 1_000_000_000_000_000int
                * 4_294_967_295int) by (nonlinear_arith)
                requires
                    0 <= int_from <= 1_000_000_000_000_000int,
                    0 <= sus_from <= 4_294_967_295int,
            ;
            assert((int_to as int) * (sus_to as int) <= 1_000_000_000_000_000int
                * 4_294_967_295int) by (nonlinear_arith)
                requires
                    0 <= int_to <= 1_000_000_000_000_000int,
                    0 <= sus_to <= 4_294_967_295int,
            ;
        }
        let c_from_wide: u128 = (int_from as u128) * (sus_from as u128) / 1000;
        let c_to_wide: u128 = (int_to as u128) * (sus_to as u128) / 1000;
        let c_from: u64 = if c_from_wide > 0xffff_ffff_ffff_ffff_u128 {
            0xffff_ffff_ffff_ffff
        } else {
            c_from_wide as u64
        };
        let c_to: u64 = if c_to_wide > 0xffff_ffff_ffff_ffff_u128 {
            0xffff_ffff_ffff_ffff
        } else {
            c_to_wide as u64
        };
        if c_from >= c_to {
            c_from
        } else {
            c_to
        }
    }

    /// Interference score for every stored connection of the topology: the
    /// saturating sum over all emission sources of each source's
    /// contribution, scaled by the link medium's immunity factor. One
    /// entry is returned per stored connection, in storage order and under
    /// the connection's own endpoint pair.
    pub fn calculate_interference_impact(&self, topology: &PhysicalTopology) -> (r: Vec<
        InterferenceImpact,
    >)
        requires
            topology.wf(),
        ensures
            r@.len() == topology.connections@.len(),
            forall|k: int|
                0 <= k < r@.len() ==> {
                    let e = topology.connections@[k];
                    &&& (#[trigger] r@[k]).from == e.from
                    &&& r@[k].to == e.to
                    &&& r@[k].score == spec_apply_immunity(
                        e.connection.connection_type,
                        spec_interference_sum(
                            *topology,
                            self.susceptibility@,
                            self.sources@,
                            e.from,
                            e.to,
                        ),
                    )
                },
    {
        let mut impact: Vec<InterferenceImpact> = Vec::new();
        let mut k: usize = 0;
        while k < topology.connections.len()
            invariant
                topology.wf(),
                k <= topology.connections@.len(),
                impact@.len() == k,
                forall|m: int|
                    0 <= m < k ==> {
                        let e = topology.connections@[m];
                        &&& (#[trigger] impact@[m]).from == e.from
                        &&& impact@[m].to == e.to
                        &&& impact@[m].score == spec_apply_immunity(
                            e.connection.connection_type,
                            spec_interference_sum(
                                *topology,
                                self.susceptibility@,
                                self.sources@,
                                e.from,
                                e.to,
                            ),
                        )
                    },
            decreases topology.connections@.len() - k,
        {
            let from = topology.connections[k].from;
            let to = topology.connections[k].to;

            let mut accumulated: u64 = 0;
            let mut s: usize = 0;
            while s < self.sources.len()
                invariant
                    topology.wf(),
                    s <= self.sources@.len(),
                    accumulated == spec_interference_sum(
                        *topology,
                        self.susceptibility@,
                        self.sources@.take(s as int),
                        from,
                        to,
                    ),
                decreases self.sources@.len() - s,
            {
                let contribution = self.source_contribution(
                    topology,
                    &self.sources[s],
                    &from,
                    &to,
                );
                proof {
                    let pre = self.sources@.take(s as int + 1);
                    assert(pre.drop_last() =~= self.sources@.take(s as int));
                    assert(pre.last() == self.sources@[s as int]);
                }
                accumulated = sat_add(accumulated, contribution);
                s = s + 1;
            }
            proof {
                assert(self.sources@.take(self.sources@.len() as int) =~= self.sources@);
            }

            let score: u64 = match topology.connections[k].connection.connection_type {
                ConnectionType::Copper { shielded, .. } => {
                    if shielded {
                        accumulated / 5
                    } else {
                        accumulated
                    }
                },
                ConnectionType::FiberOptic { .. } => accumulated / 100,
                ConnectionType::PcbTrace { .. } => accumulated / 2,
                ConnectionType::Wireless { .. } => {
                    let wide: u128 = (accumulated as u128) * 3 / 2;
                    if wide > 0xffff_ffff_ffff_ffff_u128 {
                        0xffff_ffff_ffff_ffff
                    } else {
                        wide as u64
                    }
                },
            };
            impact.push(InterferenceImpact { from, to, score });
            k = k + 1;
        }
        impact
    }
}

} // verus!
