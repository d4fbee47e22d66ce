//! The protocols' common shape, the samples they produce, and the harness
//! that runs a protocol over every pair of hardware threads it applies to.

pub mod cas;
pub mod mem;
pub mod msg_passing;
pub mod read_write;

use vstd::prelude::*;
use quanta::Clock;
use crate::args::CliArgs;
use crate::sample::Sample;
use crate::tensor::{samples_at, samples_at_row, well_shaped, Measurements, Row};

verus! {

/// An iteration or sample count.
pub type Count = u32;

/// A two-thread protocol that can be timed.
pub trait Bench {
    /// Whether a run on `(i, j)` measures the same thing as a run on `(j, i)`.
    spec fn symmetric(&self) -> bool;

    /// Runs the protocol between two threads, the timed one pinned to
    /// hardware thread `cores.0` and its peer to `cores.1`, and returns one
    /// sample for each of the `num_samples` passes of `num_iterations`
    /// iterations. The state that the two threads share lives for this call
    /// only.
    fn run(&self, cores: (usize, usize), clock: &Clock, num_iterations: Count, num_samples: Count) -> (samples: Vec<Sample>)
        ensures
            samples.len() == num_samples,
    ;

    /// Whether a run on `(i, j)` measures the same thing as a run on `(j, i)`.
    fn is_symmetric(&self) -> (symmetric: bool)
        ensures
            symmetric == self.symmetric(),
    ;
}

/// Why a run over the pairs could not start.
#[derive(Clone, Copy, Debug, PartialEq, Eq, Structural)]
pub enum HarnessError {
    /// There are fewer than two hardware threads to measure between.
    TooFewCores,
    /// With the warmup sample the samples of a pair can not be counted.
    TooManySamples,
}

/// Whether the pair of the threads at positions `i` and `j` is measured: no
/// thread with itself and, where the two directions measure the same, only
/// the pairs below the diagonal.
pub open spec fn scheduled(symmetric: bool, i: int, j: int) -> bool {
    if symmetric {
        i > j
    } else {
        i != j
    }
}

/// Whether the pair of the threads at positions `i` and `j` is measured.
pub fn is_scheduled(symmetric: bool, i: usize, j: usize) -> (run: bool)
    ensures
        run == scheduled(symmetric, i as int, j as int),
{
    if symmetric {
        i > j
    } else {
        i != j
    }
}

/// Drops the sample of the warmup pass, which is the first one.
pub fn discard_warmup(samples: Vec<Sample>) -> (kept: Vec<Sample>)
    requires
        samples.len() >= 1,
    ensures
        kept@ == samples@.subrange(1, samples.len() as int),
{
    let mut kept = samples;
    kept.remove(0);
    proof {
        assert(kept@ =~= samples@.subrange(1, samples.len() as int));
    }
    kept
}

/// Whether `samples` are what a run of the protocol between `cores`, with
/// `num_iterations` iterations and one sample more than `num_samples`,
/// returned after its first sample.
pub open spec fn kept_of_run<B: Bench>(bench: &B, cores: (usize, usize), clock: &Clock, num_iterations: Count, num_samples: Count, samples: Seq<Sample>) -> bool {
    exists|all: Vec<Sample>|
        #[trigger] call_ensures(
            B::run,
            (bench, cores, clock, num_iterations, (1 + num_samples) as u32),
            all,
        ) && samples == all@.subrange(1, all.len() as int)
}

/// Measures one pair: runs the protocol between `cores` with the iterations
/// asked for and one sample more, and drops the first sample, which pays for
/// what happens only once.
pub fn measure<B: Bench>(bench: &B, cores: (usize, usize), clock: &Clock, num_iterations: Count, num_samples: Count) -> (samples: Vec<Sample>)
    requires
        num_samples < u32::MAX,
    ensures
        samples.len() == num_samples,
        kept_of_run(bench, cores, clock, num_iterations, num_samples, samples@),
{
    discard_warmup(bench.run(cores, clock, num_iterations, 1 + num_samples))
}

/// No thread is measured with itself, whatever the protocol.
pub proof fn lemma_diagonal_not_scheduled(symmetric: bool, i: int)
    ensures
        !scheduled(symmetric, i, i),
{
}

/// Where the two directions measure the same, only one of them is measured:
/// of two different threads, the pair that lies below the diagonal.
pub proof fn lemma_symmetric_measures_one_direction(i: int, j: int)
    requires
        i != j,
    ensures
        scheduled(true, i, j) != scheduled(true, j, i),
        scheduled(true, i, j) <==> i > j,
{
}

/// Where the direction matters, two different threads are measured in both
/// directions.
pub proof fn lemma_directional_measures_both(i: int, j: int)
    requires
        i != j,
    ensures
        scheduled(false, i, j),
        scheduled(false, j, i),
{
}

/// What the cell of the threads at positions `i` and `j` holds after a run:
/// nothing where the pair is not scheduled, and else the `num_samples`
/// samples that a run between those two threads returned after its first.
pub open spec fn cell_as_scheduled<B: Bench>(bench: &B, cores: Seq<usize>, clock: &Clock, num_iterations: Count, num_samples: Count, i: int, j: int, cell: Option<Seq<Sample>>) -> bool {
    match cell {
        Some(samples) => {
            &&& scheduled(bench.symmetric(), i, j)
            &&& samples.len() == num_samples
            &&& kept_of_run(bench, (cores[i], cores[j]), clock, num_iterations, num_samples, samples)
        },
        None => !scheduled(bench.symmetric(), i, j),
    }
}

/// What the harness has to show for a run over `cores`: a tensor of their
/// number, whose every cell is as scheduled.
pub open spec fn filled_as_scheduled<B: Bench>(m: Measurements, bench: &B, cores: Seq<usize>, clock: &Clock, num_iterations: Count, num_samples: Count) -> bool {
    &&& m.spec_n_cores() == cores.len()
    &&& m.spec_num_samples() == num_samples
    &&& forall|i: int, j: int|
        0 <= i < cores.len() && 0 <= j < cores.len() ==> cell_as_scheduled(
            bench,
            cores,
            clock,
            num_iterations,
            num_samples,
            i,
            j,
            #[trigger] m.pair(i, j),
        )
}

/// In the tensor of a run, the pair of a thread with itself has no samples.
pub proof fn lemma_diagonal_absent<B: Bench>(m: Measurements, bench: &B, cores: Seq<usize>, clock: &Clock, num_iterations: Count, num_samples: Count, i: int)
    requires
        filled_as_scheduled(m, bench, cores, clock, num_iterations, num_samples),
        0 <= i < cores.len(),
    ensures
        m.pair(i, i) is None,
        forall|s: int| m.entry(i, i, s) is None,
{
    assert(cell_as_scheduled(bench, cores, clock, num_iterations, num_samples, i, i, m.pair(i, i)));
}

/// Measures the row of the thread at position `i`: every scheduled pair
/// `(i, j)`, by `measure`, in the order of `j`.
pub fn run_row<B: Bench>(cores: &[usize], clock: &Clock, num_iterations: Count, num_samples: Count, bench: &B, i: usize) -> (row: Row)
    requires
        i < cores.len(),
        num_samples < u32::MAX,
    ensures
        row.len() == cores.len(),
        forall|j: int|
            0 <= j < row.len() ==> cell_as_scheduled(
                bench,
                cores@,
                clock,
                num_iterations,
                num_samples,
                i as int,
                j,
                #[trigger] samples_at_row(row@, j),
            ),
{
    let n_cores = cores.len();
    let core_i = cores[i];
    let mut row: Row = Vec::new();
    let mut j: usize = 0;
    while j < n_cores
        invariant
            n_cores == cores.len(),
            i < n_cores,
            core_i == cores[i as int],
            j <= n_cores,
            num_samples < u32::MAX,
            row.len() == j,
            forall|b: int|
                0 <= b < row.len() ==> cell_as_scheduled(
                    bench,
                    cores@,
                    clock,
                    num_iterations,
                    num_samples,
                    i as int,
                    b,
                    #[trigger] samples_at_row(row@, b),
                ),
        decreases n_cores - j,
    {
        let ghost before = row@;
        if is_scheduled(bench.is_symmetric(), i, j) {
            let core_j = cores[j];
            let samples = measure(bench, (core_i, core_j), clock, num_iterations, num_samples);
            row.push(Some(samples));
        } else {
            row.push(None);
        }
        proof {
            assert forall|b: int| 0 <= b < row.len() implies cell_as_scheduled(
                bench,
                cores@,
                clock,
                num_iterations,
                num_samples,
                i as int,
                b,
                #[trigger] samples_at_row(row@, b),
            ) by {
                if b < j {
                    assert(samples_at_row(row@, b) == samples_at_row(before, b));
                }
            }
        }
        j = j + 1;
    }
    row
}

/// Runs the protocol over the pairs of `cores`, row by row: every scheduled
/// pair is measured once, with the iterations and samples that `args` ask
/// for and one warmup sample that is dropped, and the pairs that are not
/// scheduled, the diagonal among them, stay without samples. Fails before
/// any measurement where there are fewer than two threads.
pub fn run_bench<B: Bench>(cores: &[usize], clock: &Clock, args: &CliArgs, bench: B) -> (result: Result<Measurements, HarnessError>)
    ensures
        cores.len() < 2 ==> result == Err::<Measurements, HarnessError>(HarnessError::TooFewCores),
        cores.len() >= 2 && args.num_samples == u32::MAX ==> result == Err::<
            Measurements,
            HarnessError,
        >(HarnessError::TooManySamples),
        cores.len() >= 2 && args.num_samples < u32::MAX ==> (result matches Ok(m)
            && filled_as_scheduled(
            m,
            &bench,
            cores@,
            clock,
            args.num_iterations,
            args.num_samples,
        )),
{
    let num_samples = args.num_samples;
    let num_iterations = args.num_iterations;
    let n_cores = cores.len();
    if n_cores < 2 {
        return Err(HarnessError::TooFewCores);
    }
    if num_samples == u32::MAX {
        return Err(HarnessError::TooManySamples);
    }
    let mut rows: Vec<Row> = Vec::new();
    let mut i: usize = 0;
    while i < n_cores
        invariant
            n_cores == cores.len(),
            i <= n_cores,
            num_samples < u32::MAX,
            rows.len() == i,
            forall|a: int| 0 <= a < rows.len() ==> (#[trigger] rows[a]).len() == n_cores,
            forall|a: int, b: int|
                0 <= a < rows.len() && 0 <= b < n_cores ==> cell_as_scheduled(
                    &bench,
                    cores@,
                    clock,
                    num_iterations,
                    num_samples,
                    a,
                    b,
                    #[trigger] samples_at(rows@, a, b),
                ),
        decreases n_cores - i,
    {
        let row = run_row(cores, clock, num_iterations, num_samples, &bench, i);
        let ghost before = rows@;
        let ghost added = row@;
        rows.push(row);
        proof {
            assert forall|a: int, b: int| 0 <= a < rows.len() && 0 <= b < n_cores implies cell_as_scheduled(
                &bench,
                cores@,
                clock,
                num_iterations,
                num_samples,
                a,
                b,
                #[trigger] samples_at(rows@, a, b),
            ) by {
                if a < i {
                    assert(samples_at(rows@, a, b) == samples_at(before, a, b));
                } else {
                    assert(samples_at(rows@, a, b) == samples_at_row(added, b));
                }
            }
        }
        i = i + 1;
    }
    proof {
        assert forall|a: int, b: int| 0 <= a < rows.len() && 0 <= b < rows[a].len() implies ((
        #[trigger] rows[a][b]) matches Some(samples) ==> samples.len() == num_samples) by {
            assert(cell_as_scheduled(
                &bench,
                cores@,
                clock,
                num_iterations,
                num_samples,
                a,
                b,
                samples_at(rows@, a, b),
            ));
        }
        assert(well_shaped(rows@, num_samples));
    }
    let m = Measurements::from_shaped_rows(num_samples, rows);
    proof {
        assert forall|i: int, j: int| 0 <= i < n_cores && 0 <= j < n_cores implies cell_as_scheduled(
            &bench,
            cores@,
            clock,
            num_iterations,
            num_samples,
            i,
            j,
            #[trigger] m.pair(i, j),
        ) by {
            assert(m.in_range(i, j));
            assert(m.pair(i, j) == samples_at(rows@, i, j));
        }
    }
    Ok(m)
}

} // verus!
