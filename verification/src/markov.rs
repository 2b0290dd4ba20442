//! A Markov model over named environment states.
//!
//! Transition probabilities are carried in parts per million; a row of the
//! transition matrix must sum to one within the declared tolerance.

use vstd::prelude::*;
use crate::rng::random_unit_ppm;

verus! {

/// One, in parts per million: the required sum of each matrix row.
pub const PROB_SCALE_PPM: u64 = 1_000_000;

/// Allowed deviation of a row sum from one (0.0001 in ppm).
pub const ROW_SUM_TOLERANCE_PPM: u64 = 100;

/// Rejections raised when a model is constructed from bad inputs.
#[derive(Debug, Clone, Copy, PartialEq, Eq, Structural)]
pub enum ConstructionError {
    /// The matrix is not square with side length equal to the state count.
    DimensionMismatch,
    /// Some row's probabilities do not sum to one within tolerance.
    RowSumOutOfTolerance,
    /// The initial state index is not below the state count.
    InitialStateOutOfRange,
}

/// Sum of a probability row.
pub open spec fn row_sum(row: Seq<u32>) -> int
    decreases row.len(),
{
    if row.len() == 0 {
        0
    } else {
        row_sum(row.drop_last()) + row.last()
    }
}

/// Whether a row sums to one within tolerance.
pub open spec fn row_sum_ok(row: Seq<u32>) -> bool {
    PROB_SCALE_PPM - ROW_SUM_TOLERANCE_PPM <= row_sum(row) <= PROB_SCALE_PPM
        + ROW_SUM_TOLERANCE_PPM
}

/// The first problem found scanning the rows in order: a row of the wrong
/// width, or a row whose sum is out of tolerance.
pub open spec fn spec_matrix_error(n: int, rows: Seq<Vec<u32>>) -> Option<ConstructionError>
    decreases rows.len(),
{
    if rows.len() == 0 {
        None
    } else {
        let prev = spec_matrix_error(n, rows.drop_last());
        if prev is Some {
            prev
        } else if rows.last()@.len() != n {
            Some(ConstructionError::DimensionMismatch)
        } else if !row_sum_ok(rows.last()@) {
            Some(ConstructionError::RowSumOutOfTolerance)
        } else {
            None
        }
    }
}

/// A clean scan means every row has width `n` and an in-tolerance sum.
pub proof fn lemma_matrix_scan_clean(n: int, rows: Seq<Vec<u32>>)
    requires
        spec_matrix_error(n, rows) is None,
    ensures
        forall|i: int|
            0 <= i < rows.len() ==> (#[trigger] rows[i])@.len() == n && row_sum_ok(rows[i]@),
    decreases rows.len(),
{
    if rows.len() > 0 {
        lemma_matrix_scan_clean(n, rows.drop_last());
        assert forall|i: int|
            0 <= i < rows.len() implies (#[trigger] rows[i])@.len() == n && row_sum_ok(
            rows[i]@,
        ) by {
            if i < rows.len() - 1 {
                assert(rows.drop_last()[i] == rows[i]);
            } else {
                assert(rows.last() == rows[i]);
            }
        }
    }
}

/// The index the probability walk picks for a sample: the first state at
/// which the cumulative probability exceeds the sample, if any.
pub open spec fn spec_pick(row: Seq<u32>, sample: int) -> Option<int>
    decreases row.len(),
{
    if row.len() == 0 {
        None
    } else if sample < row[0] {
        Some(0)
    } else {
        match spec_pick(row.drop_first(), sample - row[0]) {
            Some(j) => Some(j + 1),
            None => None,
        }
    }
}

/// The state the prediction walk returns: the picked index, or the
/// current state when no prefix of the row exceeds the sample.
pub open spec fn spec_next_state(row: Seq<u32>, sample: int, fallback: int) -> int {
    match spec_pick(row, sample) {
        Some(i) => i,
        None => fallback,
    }
}

/// A stochastic predictor of discrete environment states: named states,
/// a row-stochastic transition matrix in parts per million, and the index
/// of the current state.
#[derive(Debug)]
pub struct MarkovEnvironmentModel {
    pub states: Vec<String>,
    pub transition_matrix: Vec<Vec<u32>>,
    pub current_state_idx: usize,
}

impl MarkovEnvironmentModel {
    /// The matrix is square with the state count as side, every row sums
    /// to one within tolerance, and the current state is a valid index.
    pub open spec fn wf(self) -> bool {
        &&& self.states@.len() == self.transition_matrix@.len()
        &&& forall|i: int|
            0 <= i < self.transition_matrix@.len() ==> (#[trigger] self.transition_matrix@[i])@.len()
                == self.states@.len()
        &&& forall|i: int|
            0 <= i < self.transition_matrix@.len() ==> row_sum_ok(
                (#[trigger] self.transition_matrix@[i])@,
            )
        &&& self.current_state_idx < self.states@.len()
    }

    /// The row of the current state.
    pub open spec fn spec_current_row(self) -> Seq<u32> {
        self.transition_matrix@[self.current_state_idx as int]@
    }

    /// Validates and builds a model. Fails with `DimensionMismatch` when
    /// the row count differs from the state count or some row has the
    /// wrong width, with `RowSumOutOfTolerance` when a row does not sum to
    /// one within tolerance, and with `InitialStateOutOfRange` when the
    /// initial index is not below the state count; rows are checked in
    /// order, width before sum, and the matrix before the initial state.
    pub fn new(states: &Vec<String>, transition_matrix: Vec<Vec<u32>>, initial_state: usize) -> (r:
        Result<MarkovEnvironmentModel, ConstructionError>)
        ensures
            r is Ok <==> (states@.len() == transition_matrix@.len() && spec_matrix_error(
                states@.len() as int,
                transition_matrix@,
            ) is None && initial_state < states@.len()),
            states@.len() != transition_matrix@.len() ==> r == Err::<
                MarkovEnvironmentModel,
                ConstructionError,
            >(ConstructionError::DimensionMismatch),
            states@.len() == transition_matrix@.len() ==> match spec_matrix_error(
                states@.len() as int,
                transition_matrix@,
            ) {
                Some(e) => r == Err::<MarkovEnvironmentModel, ConstructionError>(e),
                None => {
                    if initial_state >= states@.len() {
                        r == Err::<MarkovEnvironmentModel, ConstructionError>(
                            ConstructionError::InitialStateOutOfRange,
                        )
                    } else {
                        r matches Ok(m) && m.states@ == states@ && m.transition_matrix@
                            == transition_matrix@ && m.current_state_idx == initial_state && m.wf()
                    }
                },
            },
    {
        if states.len() != transition_matrix.len() {
            return Err(ConstructionError::DimensionMismatch);
        }
        let n = states.len();
        let mut i: usize = 0;
        while i < transition_matrix.len()
            invariant
                i <= transition_matrix@.len(),
                n == states@.len(),
                n == transition_matrix@.len(),
                spec_matrix_error(n as int, transition_matrix@.take(i as int)) is None,
            decreases transition_matrix@.len() - i,
        {
            let row = &transition_matrix[i];
            let ghost pre = transition_matrix@.take(i as int + 1);
            proof {
                assert(pre.drop_last() =~= transition_matrix@.take(i as int));
                assert(pre.last() == transition_matrix@[i as int]);
            }
            if row.len() != n {
                proof {
                    lemma_matrix_error_prefix(n as int, transition_matrix@, i as int + 1);
                }
                return Err(ConstructionError::DimensionMismatch);
            }
            let mut sum: u128 = 0;
            let mut j: usize = 0;
            while j < row.len()
                invariant
                    j <= row@.len(),
                    sum == row_sum(row@.take(j as int)),
                    sum <= j * 0xffff_ffff,
                decreases row@.len() - j,
            {
                proof {
                    assert(row@.take(j as int + 1).drop_last() =~= row@.take(j as int));
                    assert(row@.take(j as int + 1).last() == row@[j as int]);
                }
                sum = sum + (row[j] as u128);
                j = j + 1;
            }
            proof {
                assert(row@.take(row@.len() as int) =~= row@);
            }
            let low: u128 = (PROB_SCALE_PPM - ROW_SUM_TOLERANCE_PPM) as u128;
            let high: u128 = (PROB_SCALE_PPM + ROW_SUM_TOLERANCE_PPM) as u128;
            if sum < low || sum > high {
                proof {
                    lemma_matrix_error_prefix(n as int, transition_matrix@, i as int + 1);
                }
                return Err(ConstructionError::RowSumOutOfTolerance);
            }
            i = i + 1;
        }
        proof {
            assert(transition_matrix@.take(transition_matrix@.len() as int) =~= transition_matrix@);
        }
        if initial_state >= n {
            return Err(ConstructionError::InitialStateOutOfRange);
        }
        proof {
            lemma_matrix_scan_clean(n as int, transition_matrix@);
        }
        Ok(
            MarkovEnvironmentModel {
                states: clone_strings(states),
                transition_matrix,
                current_state_idx: initial_state,
            },
        )
    }

    /// The index the walk picks for `sample_ppm` over the current row:
    /// cumulative probability mass is accumulated left to right and the
    /// first state to push it past the sample is returned, falling back to
    /// the current state when none does.
    pub fn next_state_for_sample(&self, sample_ppm: u64) -> (idx: usize)
        requires
            self.wf(),
        ensures
            idx < self.states@.len(),
            idx == spec_next_state(
                self.spec_current_row(),
                sample_ppm as int,
                self.current_state_idx as int,
            ),
    {
        let row = &self.transition_matrix[self.current_state_idx];
        let ghost whole = row@;
        proof {
            assert(whole.skip(0) =~= whole);
        }
        let mut cum: u128 = 0;
        let mut i: usize = 0;
        while i < row.len()
            invariant
                whole == row@,
                whole == self.spec_current_row(),
                whole.len() == self.states@.len(),
                self.current_state_idx < self.states@.len(),
                i <= whole.len(),
                cum == row_sum(whole.take(i as int)),
                cum <= sample_ppm,
                spec_pick(whole, sample_ppm as int) == match spec_pick(
                    whole.skip(i as int),
                    sample_ppm - cum,
                ) {
                    Some(j) => Some(i + j),
                    None => None::<int>,
                },
            decreases whole.len() - i,
        {
            let p = row[i] as u128;
            proof {
                assert(whole.skip(i as int)[0] == whole[i as int]);
                assert(whole.skip(i as int).drop_first() =~= whole.skip(i as int + 1));
                assert(whole.take(i as int + 1).drop_last() =~= whole.take(i as int));
                assert(whole.take(i as int + 1).last() == whole[i as int]);
            }
            if (sample_ppm as u128) < cum + p {
                proof {
                    assert(spec_pick(whole.skip(i as int), sample_ppm - cum) == Some(0int));
                }
                return i;
            }
            cum = cum + p;
            i = i + 1;
        }
        proof {
            assert(whole.skip(whole.len() as int) =~= Seq::<u32>::empty());
            assert(spec_pick(whole, sample_ppm as int) is None);
        }
        self.current_state_idx
    }

    /// Draws one uniform sample and walks the current row with it. The
    /// returned index is always below the state count; which index comes
    /// back depends on the draw.
    pub fn predict_next_state(&self) -> (idx: usize)
        requires
            self.wf(),
        ensures
            idx < self.states@.len(),
    {
        let sample = random_unit_ppm();
        self.next_state_for_sample(sample)
    }

    /// Sets the current state to the observed state, or to a fresh
    /// prediction when no observation is given.
    pub fn update_state(&mut self, observed_state: Option<usize>)
        requires
            old(self).wf(),
            observed_state matches Some(s) ==> s < old(self).states@.len(),
        ensures
            final(self).wf(),
            final(self).states@ == old(self).states@,
            final(self).transition_matrix@ == old(self).transition_matrix@,
            observed_state matches Some(s) ==> final(self).current_state_idx == s,
            observed_state is None ==> final(self).current_state_idx < old(self).states@.len(),
    {
        match observed_state {
            Some(state) => {
                self.current_state_idx = state;
            },
            None => {
                self.current_state_idx = self.predict_next_state();
            },
        }
    }

    /// Name of the current state.
    pub fn get_current_state(&self) -> (r: &str)
        requires
            self.wf(),
        ensures
            r@ == self.states@[self.current_state_idx as int]@,
    {
        self.states[self.current_state_idx].as_str()
    }

    /// Name of the state at `state_idx`.
    pub fn get_state_name(&self, state_idx: usize) -> (r: &str)
        requires
            self.wf(),
            state_idx < self.states@.len(),
        ensures
            r@ == self.states@[state_idx as int]@,
    {
        self.states[state_idx].as_str()
    }

    /// Probability, in parts per million, of moving from the current state
    /// to `target_state`.
    pub fn get_transition_probability(&self, target_state: usize) -> (r: u32)
        requires
            self.wf(),
            target_state < self.states@.len(),
        ensures
            r == self.spec_current_row()[target_state as int],
    {
        self.transition_matrix[self.current_state_idx][target_state]
    }

    /// The most probable next state from the current row, the first index
    /// winning ties.
    pub fn get_most_likely_next_state(&self) -> (idx: usize)
        requires
            self.wf(),
        ensures
            idx < self.states@.len(),
            forall|j: int|
                0 <= j < self.spec_current_row().len() ==> #[trigger] self.spec_current_row()[j]
                    <= self.spec_current_row()[idx as int],
            forall|j: int|
                0 <= j < idx ==> #[trigger] self.spec_current_row()[j] < self.spec_current_row()[
                    idx as int
                ],
    {
        let row = &self.transition_matrix[self.current_state_idx];
        let mut best: usize = 0;
        let mut i: usize = 1;
        while i < row.len()
            invariant
                row@ == self.spec_current_row(),
                row@.len() == self.states@.len(),
                self.states@.len() >= 1,
                best < i,
                1 <= i <= row@.len(),
                forall|j: int| 0 <= j < i ==> #[trigger] row@[j] <= row@[best as int],
                forall|j: int| 0 <= j < best ==> #[trigger] row@[j] < row@[best as int],
            decreases row@.len() - i,
        {
            if row[i] > row[best] {
                best = i;
            }
            i = i + 1;
        }
        best
    }
}

/// A prefix scan that already failed decides the whole scan.
proof fn lemma_matrix_error_prefix(n: int, rows: Seq<Vec<u32>>, k: int)
    requires
        0 < k <= rows.len(),
        spec_matrix_error(n, rows.take(k)) is Some,
    ensures
        spec_matrix_error(n, rows) == spec_matrix_error(n, rows.take(k)),
    decreases rows.len() - k,
{
    if k < rows.len() {
        assert(rows.take(k + 1).drop_last() =~= rows.take(k));
        lemma_matrix_error_prefix(n, rows, k + 1);
    } else {
        assert(rows.take(k) =~= rows);
    }
}

/// A copy of the state names.
fn clone_strings(v: &Vec<String>) -> (r: Vec<String>)
    ensures
        r@ == v@,
{
    let mut r: Vec<String> = Vec::new();
    let mut i: usize = 0;
    while i < v.len()
        invariant
            i <= v@.len(),
            r@.len() == i,
            forall|j: int| 0 <= j < i ==> #[trigger] r@[j] == v@[j],
        decreases v@.len() - i,
    {
        r.push(v[i].clone());
        i = i + 1;
    }
    proof {
        assert(r@ =~= v@);
    }
    r
}

} // verus!

verus! {

/// Every row of a constructed model's transition matrix sums to one
/// within the declared tolerance.
pub proof fn lemma_transition_rows_stochastic(m: MarkovEnvironmentModel)
    requires
        m.wf(),
    ensures
        forall|i: int|
            0 <= i < m.transition_matrix@.len() ==> PROB_SCALE_PPM - ROW_SUM_TOLERANCE_PPM
                <= row_sum((#[trigger] m.transition_matrix@[i])@) <= PROB_SCALE_PPM
                + ROW_SUM_TOLERANCE_PPM,
{
}

} // verus!
