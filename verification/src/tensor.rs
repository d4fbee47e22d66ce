//! The measurement tensor: for every ordered pair of hardware threads either
//! nothing, or the samples measured between them.

use vstd::prelude::*;
use crate::bench::Count;
use crate::sample::{
    count_to_usize, each_latency_over, mean, ratio_less, sum_numerators, Sample,
};

verus! {

/// The nanoseconds of all the samples together.
pub open spec fn total_nanos(samples: Seq<Sample>) -> nat
    decreases samples.len(),
{
    if samples.len() == 0 {
        0
    } else {
        total_nanos(samples.drop_last()) + samples.last().spec_nanos() as nat
    }
}

/// The values of latencies add up as their nanoseconds do.
pub proof fn lemma_latency_numerators(samples: Seq<Sample>, handshakes: int)
    requires
        each_latency_over(samples, handshakes),
    ensures
        sum_numerators(samples) == total_nanos(samples),
    decreases samples.len(),
{
    if samples.len() > 0 {
        let rest = samples.drop_last();
        assert forall|i: int| 0 <= i < rest.len() implies (#[trigger] rest[i]) is Latency
            && rest[i]->handshakes == handshakes by {
            assert(rest[i] == samples[i]);
        }
        lemma_latency_numerators(rest, handshakes);
        assert(samples.last() == samples[samples.len() - 1]);
    }
}

/// Of two runs of as many latencies over as many handshakes, the one with
/// the smaller total has the smaller mean.
pub proof fn lemma_means_follow_totals(x: Seq<Sample>, y: Seq<Sample>, handshakes: int)
    requires
        handshakes > 0,
        x.len() == y.len(),
        x.len() > 0,
        each_latency_over(x, handshakes),
        each_latency_over(y, handshakes),
    ensures
        ratio_less(mean(x, handshakes as nat), mean(y, handshakes as nat)) <==> total_nanos(x)
            < total_nanos(y),
{
    lemma_latency_numerators(x, handshakes);
    lemma_latency_numerators(y, handshakes);
    let d = x.len() * (handshakes as nat);
    let a = total_nanos(x);
    let b = total_nanos(y);
    assert(d > 0) by (nonlinear_arith)
        requires
            d == x.len() * (handshakes as nat),
            x.len() > 0,
            handshakes > 0,
    ;
    assert((a * d < b * d) <==> a < b) by (nonlinear_arith)
        requires
            d > 0,
    ;
}

/// The sum of the nanoseconds of `samples`.
pub fn sum_nanos(samples: &Vec<Sample>) -> (total: u128)
    requires
        samples.len() <= u32::MAX,
    ensures
        total == total_nanos(samples@),
{
    let mut total: u128 = 0;
    let mut at: usize = 0;
    while at < samples.len()
        invariant
            at <= samples.len(),
            samples.len() <= u32::MAX,
            total == total_nanos(samples@.take(at as int)),
            total <= at * u64::MAX,
        decreases samples.len() - at,
    {
        proof {
            assert(samples@.take(at + 1).drop_last() =~= samples@.take(at as int));
            assert(at * u64::MAX + u64::MAX == (at + 1) * u64::MAX) by (nonlinear_arith);
            assert((at + 1) * u64::MAX <= u32::MAX * u64::MAX) by (nonlinear_arith)
                requires
                    at + 1 <= u32::MAX,
            ;
        }
        total = total + samples[at].nanos() as u128;
        at = at + 1;
    }
    proof {
        assert(samples@.take(at as int) =~= samples@);
    }
    total
}

/// One row of the tensor: for each destination, the samples if any.
pub type Row = Vec<Option<Vec<Sample>>>;

/// Whether `rows` is a square whose measured pairs each hold `num_samples`
/// samples.
pub open spec fn well_shaped(rows: Seq<Row>, num_samples: Count) -> bool {
    &&& forall|i: int| 0 <= i < rows.len() ==> (#[trigger] rows[i]).len() == rows.len()
    &&& forall|i: int, j: int|
        0 <= i < rows.len() && 0 <= j < rows[i].len() ==> ((#[trigger] rows[i][j]) matches Some(
            samples,
        ) ==> samples.len() == num_samples)
}

/// What `row` holds for destination `j`.
pub open spec fn samples_at_row(row: Seq<Option<Vec<Sample>>>, j: int) -> Option<Seq<Sample>> {
    match row[j] {
        Some(samples) => Some(samples@),
        None => None,
    }
}

/// What `rows` hold for pair `(i, j)`.
pub open spec fn samples_at(rows: Seq<Row>, i: int, j: int) -> Option<Seq<Sample>> {
    samples_at_row(rows[i]@, j)
}

/// The samples of a run of one protocol over the pairs of a set of hardware
/// threads, by the threads' positions in that set.
pub struct Measurements {
    num_samples: Count,
    rows: Vec<Row>,
}

impl Measurements {
    #[verifier::type_invariant]
    spec fn shaped(&self) -> bool {
        well_shaped(self.rows@, self.num_samples)
    }

    /// The number of hardware threads.
    pub closed spec fn spec_n_cores(&self) -> usize {
        self.rows.len()
    }

    /// The number of samples of each measured pair.
    pub closed spec fn spec_num_samples(&self) -> Count {
        self.num_samples
    }

    /// The samples measured from thread `i` to thread `j`, or `None` where
    /// the pair was not measured.
    pub closed spec fn pair(&self, i: int, j: int) -> Option<Seq<Sample>> {
        samples_at(self.rows@, i, j)
    }

    /// One sample of the tensor, or `None` where there is none.
    pub open spec fn entry(&self, i: int, j: int, s: int) -> Option<Sample> {
        match self.pair(i, j) {
            Some(samples) => Some(samples[s]),
            None => None,
        }
    }

    /// The tensor that holds `rows`, unless they are not a square or a
    /// measured pair has another number of samples than `num_samples`.
    pub fn from_rows(num_samples: Count, rows: Vec<Row>) -> (tensor: Option<Self>)
        ensures
            tensor is Some <==> well_shaped(rows@, num_samples),
            tensor matches Some(t) ==> t.holds(rows@, num_samples),
    {
        let n = rows.len();
        let mut i: usize = 0;
        while i < n
            invariant
                n == rows.len(),
                i <= n,
                forall|k: int| 0 <= k < i ==> (#[trigger] rows[k]).len() == n,
                forall|k: int, j: int|
                    0 <= k < i && 0 <= j < n ==> ((#[trigger] rows[k][j]) matches Some(samples)
                        ==> samples.len() == num_samples),
            decreases n - i,
        {
            if rows[i].len() != n {
                return None;
            }
            let mut j: usize = 0;
            while j < n
                invariant
                    n == rows.len(),
                    i < n,
                    j <= n,
                    rows[i as int].len() == n,
                    forall|b: int|
                        0 <= b < j ==> ((#[trigger] rows[i as int][b]) matches Some(samples)
                            ==> samples.len() == num_samples),
                decreases n - j,
            {
                match &rows[i][j] {
                    Some(samples) => {
                        if samples.len() != count_to_usize(num_samples) {
                            return None;
                        }
                    },
                    None => {},
                }
                j = j + 1;
            }
            i = i + 1;
        }
        Some(Measurements { num_samples, rows })
    }

    /// Whether the tensor is the one made of `rows`: it has their size and,
    /// for every pair, their samples.
    pub open spec fn holds(&self, rows: Seq<Row>, num_samples: Count) -> bool {
        &&& self.spec_n_cores() == rows.len()
        &&& self.spec_num_samples() == num_samples
        &&& forall|i: int, j: int|
            self.in_range(i, j) ==> #[trigger] self.pair(i, j) == samples_at(rows, i, j)
    }

    /// The tensor that holds `rows`.
    pub fn from_shaped_rows(num_samples: Count, rows: Vec<Row>) -> (tensor: Self)
        requires
            well_shaped(rows@, num_samples),
        ensures
            tensor.holds(rows@, num_samples),
    {
        Measurements { num_samples, rows }
    }

    #[verifier::when_used_as_spec(spec_n_cores)]
    pub fn n_cores(&self) -> (n: usize)
        ensures
            n == self.spec_n_cores(),
    {
        self.rows.len()
    }

    #[verifier::when_used_as_spec(spec_num_samples)]
    pub fn num_samples(&self) -> (n: Count)
        ensures
            n == self.spec_num_samples(),
    {
        self.num_samples
    }

    /// The samples measured from thread `i` to thread `j`; `None` where the
    /// pair was not measured, or is no pair of the tensor.
    pub fn samples(&self, i: usize, j: usize) -> (samples: Option<&Vec<Sample>>)
        ensures
            i < self.spec_n_cores() && j < self.spec_n_cores() ==> (match samples {
                Some(v) => self.pair(i as int, j as int) == Some(v@) && v.len()
                    == self.spec_num_samples(),
                None => self.pair(i as int, j as int) is None,
            }),
            !(i < self.spec_n_cores() && j < self.spec_n_cores()) ==> samples is None,
    {
        proof {
            use_type_invariant(self);
        }
        if i < self.rows.len() && j < self.rows.len() {
            match &self.rows[i][j] {
                Some(v) => Some(v),
                None => None,
            }
        } else {
            None
        }
    }
}

/// Whether `(a, b)` is met before `(i, j)` when the pairs are walked row by
/// row.
pub open spec fn before(a: int, b: int, i: int, j: int) -> bool {
    a < i || (a == i && b < j)
}

/// Whether total `x` is to be preferred to total `y`: the larger one when
/// the largest is looked for, else the smaller one.
pub open spec fn beats(largest: bool, x: nat, y: nat) -> bool {
    if largest {
        x > y
    } else {
        x < y
    }
}

impl Measurements {
    /// The nanoseconds of all the samples of pair `(i, j)`, or `None` where
    /// the pair was not measured.
    pub open spec fn pair_nanos(&self, i: int, j: int) -> Option<nat> {
        match self.pair(i, j) {
            Some(samples) => Some(total_nanos(samples)),
            None => None,
        }
    }

    /// Whether `i` and `j` are positions of the tensor.
    pub open spec fn in_range(&self, i: int, j: int) -> bool {
        0 <= i < self.spec_n_cores() && 0 <= j < self.spec_n_cores()
    }

    /// Whether no pair of the tensor was measured.
    pub open spec fn is_empty(&self) -> bool {
        forall|a: int, b: int| self.in_range(a, b) ==> (#[trigger] self.pair(a, b)) is None
    }

    /// Whether `(i, j)` is the first measured pair, row by row, whose total
    /// no other measured pair beats.
    pub open spec fn is_first_extreme(&self, largest: bool, i: int, j: int) -> bool {
        &&& self.in_range(i, j)
        &&& self.pair(i, j) is Some
        &&& forall|a: int, b: int|
            self.in_range(a, b) ==> ((#[trigger] self.pair(a, b)) matches Some(samples) ==> {
                &&& !beats(largest, total_nanos(samples), self.pair_nanos(i, j).unwrap())
                &&& before(a, b, i, j) ==> beats(
                    largest,
                    self.pair_nanos(i, j).unwrap(),
                    total_nanos(samples),
                )
            })
    }

    /// Whether every sample of every measured pair is a latency over
    /// `handshakes` handshakes, as in the tensor of a run of one protocol
    /// that measures latency.
    pub open spec fn latencies_over(&self, handshakes: int) -> bool {
        forall|a: int, b: int|
            self.in_range(a, b) ==> ((#[trigger] self.pair(a, b)) matches Some(samples)
                ==> each_latency_over(samples, handshakes))
    }

    /// Whether every measured pair has as many samples as the tensor says.
    pub open spec fn full(&self) -> bool {
        forall|a: int, b: int|
            self.in_range(a, b) ==> ((#[trigger] self.pair(a, b)) matches Some(samples)
                ==> samples.len() == self.spec_num_samples())
    }

    /// Whether mean `x` is to be preferred to mean `y`.
    pub open spec fn mean_beats(largest: bool, x: (nat, nat), y: (nat, nat)) -> bool {
        if largest {
            ratio_less(y, x)
        } else {
            ratio_less(x, y)
        }
    }

    /// Whether `(i, j)` is the first measured pair, row by row, whose mean
    /// latency no other measured pair beats, the samples being latencies
    /// over `handshakes` handshakes.
    pub open spec fn is_first_extreme_mean(&self, largest: bool, i: int, j: int, handshakes: nat) -> bool {
        &&& self.in_range(i, j)
        &&& self.pair(i, j) is Some
        &&& forall|a: int, b: int|
            self.in_range(a, b) ==> ((#[trigger] self.pair(a, b)) matches Some(samples) ==> {
                &&& !Self::mean_beats(
                    largest,
                    mean(samples, handshakes),
                    mean(self.pair(i, j).unwrap(), handshakes),
                )
                &&& before(a, b, i, j) ==> Self::mean_beats(
                    largest,
                    mean(self.pair(i, j).unwrap(), handshakes),
                    mean(samples, handshakes),
                )
            })
    }

    /// The order of the totals is the order of the means where both are
    /// defined alike for every pair: in a tensor of latencies over one
    /// number of handshakes, with at least one sample for each measured
    /// pair, the first pair of extreme total is the first pair of extreme
    /// mean.
    pub proof fn lemma_extreme_by_mean(&self, largest: bool, i: int, j: int, handshakes: int)
        requires
            self.is_first_extreme(largest, i, j),
            self.full(),
            self.latencies_over(handshakes),
            handshakes > 0,
            self.spec_num_samples() > 0,
        ensures
            self.is_first_extreme_mean(largest, i, j, handshakes as nat),
    {
        let chosen = self.pair(i, j).unwrap();
        assert forall|a: int, b: int| self.in_range(a, b) implies ((#[trigger] self.pair(a, b)) matches Some(
            samples,
        ) ==> {
            &&& !Self::mean_beats(
                largest,
                mean(samples, handshakes as nat),
                mean(chosen, handshakes as nat),
            )
            &&& before(a, b, i, j) ==> Self::mean_beats(
                largest,
                mean(chosen, handshakes as nat),
                mean(samples, handshakes as nat),
            )
        }) by {
            if let Some(samples) = self.pair(a, b) {
                lemma_means_follow_totals(samples, chosen, handshakes);
                lemma_means_follow_totals(chosen, samples, handshakes);
            }
        }
    }

    /// Every value of the type is full.
    pub fn check_full(&self)
        ensures
            self.full(),
    {
        proof {
            use_type_invariant(self);
            assert forall|a: int, b: int| self.in_range(a, b) implies ((#[trigger] self.pair(
                a,
                b,
            )) matches Some(samples) ==> samples.len() == self.spec_num_samples()) by {
                let cell = self.rows[a][b];
            }
        }
    }

    /// The total time measured for pair `(i, j)`; `None` where the pair was
    /// not measured, or is no pair of the tensor.
    pub fn pair_total(&self, i: usize, j: usize) -> (total: Option<u128>)
        ensures
            self.in_range(i as int, j as int) ==> (match total {
                Some(t) => self.pair_nanos(i as int, j as int) == Some(t as nat),
                None => self.pair(i as int, j as int) is None,
            }),
            !self.in_range(i as int, j as int) ==> total is None,
    {
        proof {
            use_type_invariant(self);
        }
        match self.samples(i, j) {
            Some(samples) => Some(sum_nanos(samples)),
            None => None,
        }
    }

    /// The first pair, row by row, with the smallest total (`largest` false)
    /// or the largest total (`largest` true) of all measured pairs.
    fn first_extreme(&self, largest: bool) -> (found: Option<(usize, usize)>)
        ensures
            match found {
                Some((i, j)) => self.is_first_extreme(largest, i as int, j as int),
                None => self.is_empty(),
            },
    {
        proof {
            use_type_invariant(self);
        }
        let n = self.rows.len();
        let mut best: Option<(usize, usize)> = None;
        let mut best_total: u128 = 0;
        let mut i: usize = 0;
        while i < n
            invariant
                n == self.spec_n_cores(),
                i <= n,
                self.scanned(largest, best, best_total, i as int, 0),
            decreases n - i,
        {
            let mut j: usize = 0;
            while j < n
                invariant
                    n == self.spec_n_cores(),
                    i < n,
                    j <= n,
                    self.scanned(largest, best, best_total, i as int, j as int),
                decreases n - j,
            {
                match self.pair_total(i, j) {
                    Some(total) => {
                        let better = match best {
                            None => true,
                            Some(_) => if largest {
                                total > best_total
                            } else {
                                total < best_total
                            },
                        };
                        if better {
                            best = Some((i, j));
                            best_total = total;
                        }
                    },
                    None => {},
                }
                j = j + 1;
            }
            i = i + 1;
        }
        best
    }

    /// What a walk over the pairs before `(i, j)` has found: nothing, when
    /// none of them was measured; else the first extreme pair among them.
    spec fn scanned(&self, largest: bool, best: Option<(usize, usize)>, best_total: u128, i: int, j: int) -> bool {
        match best {
            None => forall|a: int, b: int|
                self.in_range(a, b) && before(a, b, i, j) ==> (#[trigger] self.pair(a, b)) is None,
            Some((bi, bj)) => {
                &&& self.in_range(bi as int, bj as int)
                &&& before(bi as int, bj as int, i, j)
                &&& self.pair_nanos(bi as int, bj as int) == Some(best_total as nat)
                &&& forall|a: int, b: int|
                    self.in_range(a, b) && before(a, b, i, j) ==> ((#[trigger] self.pair(a, b))
                        matches Some(samples) ==> {
                        &&& !beats(largest, total_nanos(samples), best_total as nat)
                        &&& before(a, b, bi as int, bj as int) ==> beats(
                            largest,
                            best_total as nat,
                            total_nanos(samples),
                        )
                    })
            },
        }
    }

    /// Whether the pairs can be ranked by their mean latency, the samples
    /// being latencies over `handshakes` handshakes: there are samples, and
    /// every one of them is a latency over that number, which is above zero.
    pub open spec fn ranked_by(&self, handshakes: int) -> bool {
        &&& handshakes > 0
        &&& self.spec_num_samples() > 0
        &&& !self.is_empty()
        &&& self.latencies_over(handshakes)
    }

    /// Whether the pairs can be ranked by their mean latency. A tensor of
    /// throughputs, or of latencies over different numbers of handshakes,
    /// can not: the time in all does not order its means.
    pub open spec fn ranked(&self) -> bool {
        exists|handshakes: int| #[trigger] self.ranked_by(handshakes)
    }

    /// Whether the walk over the pairs before `(i, j)`, and over the first
    /// `k` samples of `(i, j)`, has met nothing but latencies over
    /// `common` handshakes, and with `common` present at least one.
    spec fn all_alike(&self, common: Option<u64>, i: int, j: int, k: int, witness: (int, int, int)) -> bool {
        &&& forall|a: int, b: int|
            self.in_range(a, b) && before(a, b, i, j) ==> ((#[trigger] self.pair(a, b)) matches Some(
                samples,
            ) ==> common matches Some(h) && each_latency_over(samples, h as int))
        &&& self.in_range(i, j) && k > 0 ==> (self.pair(i, j) matches Some(samples) && common matches Some(
            h,
        ) && k <= samples.len() && each_latency_over(samples.take(k), h as int))
        &&& common matches Some(h) ==> {
            &&& h > 0
            &&& self.in_range(witness.0, witness.1)
            &&& self.pair(witness.0, witness.1) matches Some(samples) && 0 <= witness.2
                < samples.len() && samples[witness.2] == (Sample::Latency {
                nanos: samples[witness.2].spec_nanos(),
                handshakes: h,
            })
        }
    }

    /// The number of handshakes that every sample is a latency over, where
    /// the pairs can be ranked by their mean latency; `None` where they can
    /// not.
    pub fn common_handshakes(&self) -> (common: Option<u64>)
        ensures
            match common {
                Some(h) => self.ranked_by(h as int),
                None => !self.ranked(),
            },
    {
        proof {
            use_type_invariant(self);
        }
        if self.num_samples == 0 {
            assert forall|h: int| !#[trigger] self.ranked_by(h) by {}
            return None;
        }
        let n = self.rows.len();
        let mut common: Option<u64> = None;
        let ghost mut witness: (int, int, int) = (0, 0, 0);
        let mut i: usize = 0;
        while i < n
            invariant
                n == self.spec_n_cores(),
                self.spec_num_samples() > 0,
                i <= n,
                self.all_alike(common, i as int, 0, 0, witness),
            decreases n - i,
        {
            let mut j: usize = 0;
            while j < n
                invariant
                    n == self.spec_n_cores(),
                    self.spec_num_samples() > 0,
                    i < n,
                    j <= n,
                    self.all_alike(common, i as int, j as int, 0, witness),
                decreases n - j,
            {
                if let Some(samples) = self.samples(i, j) {
                    let mut k: usize = 0;
                    while k < samples.len()
                        invariant
                            n == self.spec_n_cores(),
                            self.spec_num_samples() > 0,
                            i < n,
                            j < n,
                            k <= samples.len(),
                            self.pair(i as int, j as int) == Some(samples@),
                            self.all_alike(common, i as int, j as int, k as int, witness),
                        decreases samples.len() - k,
                    {
                        let alike = match samples[k] {
                            Sample::Latency { handshakes, .. } => match common {
                                Some(h) => handshakes == h,
                                None => handshakes > 0,
                            },
                            Sample::Throughput { .. } => false,
                        };
                        if !alike {
                            proof {
                                assert forall|h: int| !#[trigger] self.ranked_by(h) by {
                                    if self.ranked_by(h) {
                                        assert(self.in_range(i as int, j as int));
                                        assert(each_latency_over(samples@, h));
                                        assert(samples@[k as int] is Latency);
                                        if let Some(c) = common {
                                            let seen = self.pair(witness.0, witness.1).unwrap();
                                            assert(each_latency_over(seen, h));
                                            assert(seen[witness.2]->handshakes == h);
                                        }
                                    }
                                }
                            }
                            return None;
                        }
                        proof {
                            assert(samples@.take(k + 1).drop_last() =~= samples@.take(k as int));
                            if common is None {
                                witness = (i as int, j as int, k as int);
                            }
                            let h = samples@[k as int]->handshakes;
                            assert forall|t: int| 0 <= t < k + 1 implies (#[trigger] samples@.take(
                                k + 1,
                            )[t]) is Latency && samples@.take(k + 1)[t]->handshakes == h by {
                                if t < k {
                                    assert(samples@.take(k as int)[t] == samples@.take(k + 1)[t]);
                                }
                            }
                        }
                        if common.is_none() {
                            if let Sample::Latency { handshakes, .. } = samples[k] {
                                common = Some(handshakes);
                            }
                        }
                        k = k + 1;
                    }
                    proof {
                        assert(samples@.take(k as int) =~= samples@);
                    }
                }
                j = j + 1;
            }
            i = i + 1;
        }
        proof {
            match common {
                Some(h) => {
                    assert(self.in_range(witness.0, witness.1));
                    assert(self.pair(witness.0, witness.1) is Some);
                },
                None => {
                    assert(self.is_empty());
                    assert forall|h: int| !#[trigger] self.ranked_by(h) by {}
                },
            }
        }
        common
    }

    /// The first pair of extreme mean latency, row by row, of a tensor
    /// whose pairs can be ranked; `None` for any other tensor.
    fn first_ranked(&self, largest: bool) -> (found: Option<(usize, usize)>)
        ensures
            found is Some <==> self.ranked(),
            found matches Some((i, j)) ==> self.is_first_extreme(largest, i as int, j as int),
            forall|handshakes: int| #[trigger]
                self.ranked_by(handshakes) ==> (found matches Some((i, j))
                    && self.is_first_extreme_mean(
                    largest,
                    i as int,
                    j as int,
                    handshakes as nat,
                )),
    {
        match self.common_handshakes() {
            None => None,
            Some(_) => {
                let found = self.first_extreme(largest);
                self.check_full();
                proof {
                    if let Some((i, j)) = found {
                        assert forall|handshakes: int| #[trigger]
                            self.ranked_by(handshakes) implies self.is_first_extreme_mean(
                            largest,
                            i as int,
                            j as int,
                            handshakes as nat,
                        ) by {
                            self.lemma_extreme_by_mean(largest, i as int, j as int, handshakes);
                        }
                    }
                }
                found
            },
        }
    }

    /// The pair with the smallest mean latency; of several, the one that
    /// comes first, row by row. It is the first pair with the smallest time
    /// in all. `None` where the pairs can not be ranked by their mean
    /// latency: where there is no sample, or the samples are not all
    /// latencies over one number of handshakes.
    pub fn min_pair(&self) -> (found: Option<(usize, usize)>)
        ensures
            found is Some <==> self.ranked(),
            found matches Some((i, j)) ==> self.is_first_extreme(false, i as int, j as int),
            forall|handshakes: int| #[trigger]
                self.ranked_by(handshakes) ==> (found matches Some((i, j))
                    && self.is_first_extreme_mean(false, i as int, j as int, handshakes as nat)),
    {
        self.first_ranked(false)
    }

    /// The pair with the largest mean latency; of several, the one that
    /// comes first, row by row. It is the first pair with the largest time
    /// in all. `None` where the pairs can not be ranked by their mean
    /// latency: where there is no sample, or the samples are not all
    /// latencies over one number of handshakes.
    pub fn max_pair(&self) -> (found: Option<(usize, usize)>)
        ensures
            found is Some <==> self.ranked(),
            found matches Some((i, j)) ==> self.is_first_extreme(true, i as int, j as int),
            forall|handshakes: int| #[trigger]
                self.ranked_by(handshakes) ==> (found matches Some((i, j))
                    && self.is_first_extreme_mean(true, i as int, j as int, handshakes as nat)),
    {
        self.first_ranked(true)
    }
}

impl Measurements {
    /// The nanoseconds of pair `(i, j)`, zero where it was not measured.
    pub open spec fn nanos_or_zero(&self, i: int, j: int) -> nat {
        match self.pair_nanos(i, j) {
            Some(total) => total,
            None => 0,
        }
    }

    /// The nanoseconds of the first `upto` pairs of row `i`.
    pub open spec fn row_nanos(&self, i: int, upto: int) -> nat
        decreases upto,
    {
        if upto <= 0 {
            0
        } else {
            self.row_nanos(i, upto - 1) + self.nanos_or_zero(i, upto - 1)
        }
    }

    /// The nanoseconds of the first `upto` rows.
    pub open spec fn rows_nanos(&self, upto: int) -> nat
        decreases upto,
    {
        if upto <= 0 {
            0
        } else {
            self.rows_nanos(upto - 1) + self.row_nanos(upto - 1, self.spec_n_cores() as int)
        }
    }

    /// The nanoseconds of all the samples of the tensor.
    pub open spec fn grand_nanos(&self) -> nat {
        self.rows_nanos(self.spec_n_cores() as int)
    }

    /// How many of the first `upto` pairs of row `i` were measured.
    pub open spec fn row_measured(&self, i: int, upto: int) -> nat
        decreases upto,
    {
        if upto <= 0 {
            0
        } else {
            self.row_measured(i, upto - 1) + if self.pair(i, upto - 1) is Some {
                1nat
            } else {
                0nat
            }
        }
    }

    /// How many pairs of the first `upto` rows were measured.
    pub open spec fn rows_measured(&self, upto: int) -> nat
        decreases upto,
    {
        if upto <= 0 {
            0
        } else {
            self.rows_measured(upto - 1) + self.row_measured(
                upto - 1,
                self.spec_n_cores() as int,
            )
        }
    }

    /// How many pairs of the tensor were measured.
    pub open spec fn measured(&self) -> nat {
        self.rows_measured(self.spec_n_cores() as int)
    }

    proof fn lemma_row_nanos_grows(&self, i: int, a: int, b: int)
        requires
            a <= b,
        ensures
            self.row_nanos(i, a) <= self.row_nanos(i, b),
        decreases b - a,
    {
        if a < b {
            self.lemma_row_nanos_grows(i, a, b - 1);
        }
    }

    proof fn lemma_rows_nanos_grows(&self, a: int, b: int)
        requires
            a <= b,
        ensures
            self.rows_nanos(a) <= self.rows_nanos(b),
        decreases b - a,
    {
        if a < b {
            self.lemma_rows_nanos_grows(a, b - 1);
        }
    }

    /// The total time of all the samples of the tensor, unless it exceeds
    /// 128 bits.
    pub fn grand_total(&self) -> (total: Option<u128>)
        ensures
            match total {
                Some(t) => t == self.grand_nanos(),
                None => self.grand_nanos() > u128::MAX,
            },
    {
        let n = self.n_cores();
        let mut total: u128 = 0;
        let mut i: usize = 0;
        while i < n
            invariant
                n == self.spec_n_cores(),
                i <= n,
                total == self.rows_nanos(i as int),
            decreases n - i,
        {
            let mut j: usize = 0;
            while j < n
                invariant
                    n == self.spec_n_cores(),
                    i < n,
                    j <= n,
                    total == self.rows_nanos(i as int) + self.row_nanos(i as int, j as int),
                decreases n - j,
            {
                if let Some(pair_total) = self.pair_total(i, j) {
                    match total.checked_add(pair_total) {
                        Some(sum) => {
                            total = sum;
                        },
                        None => {
                            proof {
                                self.lemma_row_nanos_grows(i as int, j + 1, n as int);
                                self.lemma_rows_nanos_grows(i + 1, n as int);
                            }
                            return None;
                        },
                    }
                }
                j = j + 1;
            }
            i = i + 1;
        }
        Some(total)
    }

    /// The number of measured pairs.
    pub fn measured_pairs(&self) -> (count: u128)
        ensures
            count == self.measured(),
    {
        let n = self.n_cores();
        let mut count: u128 = 0;
        let mut i: usize = 0;
        while i < n
            invariant
                n == self.spec_n_cores(),
                i <= n,
                count == self.rows_measured(i as int),
                count <= i * n,
            decreases n - i,
        {
            let mut j: usize = 0;
            while j < n
                invariant
                    n == self.spec_n_cores(),
                    i < n,
                    j <= n,
                    count == self.rows_measured(i as int) + self.row_measured(i as int, j as int),
                    self.rows_measured(i as int) <= i * n,
                    self.row_measured(i as int, j as int) <= j,
                decreases n - j,
            {
                proof {
                    assert(i * n + n == (i + 1) * n) by (nonlinear_arith);
                    assert((i + 1) * n <= usize::MAX * usize::MAX) by (nonlinear_arith)
                        requires
                            i + 1 <= usize::MAX,
                            n <= usize::MAX,
                    ;
                    assert(usize::MAX * usize::MAX < u128::MAX) by (nonlinear_arith)
                        requires
                            usize::MAX <= u64::MAX,
                    ;
                    assert(count + 1 <= i * n + n);
                }
                if self.samples(i, j).is_some() {
                    count = count + 1;
                }
                j = j + 1;
            }
            proof {
                assert(i * n + n == (i + 1) * n) by (nonlinear_arith);
            }
            i = i + 1;
        }
        count
    }
}

} // verus!
