//! What the operator chooses for a run.

use vstd::prelude::*;
use crate::bench::Count;

verus! {

/// Samples per pair when none are asked for.
pub const DEFAULT_NUM_SAMPLES: Count = 300;

/// Iterations per sample when none are asked for.
pub const DEFAULT_NUM_ITERATIONS_PER_SAMPLE: Count = 1000;

/// The choices of one invocation.
pub struct CliArgs {
    /// The number of iterations per sample.
    pub num_iterations: Count,
    /// The number of samples kept per pair.
    pub num_samples: Count,
    /// Whether the mean latencies are also written as comma-separated rows.
    pub csv: bool,
    /// The protocols to run, by their numbers, in order.
    pub bench: Vec<usize>,
    /// The hardware threads to use, by identifier; empty for all.
    pub cores: Vec<usize>,
}

/// The protocols that an invocation can ask for.
#[derive(Clone, Copy, Debug, PartialEq, Eq, Structural)]
pub enum BenchKind {
    /// Compare-and-swap on one shared cache line.
    Cas,
    /// One writer and one reader on two shared cache lines.
    ReadWrite,
    /// One writer and one reader on many cache lines, by the clock.
    MsgPassing,
}

/// The protocol that goes by number `selector`.
pub open spec fn kind_of(selector: usize) -> Option<BenchKind> {
    if selector == 1 {
        Some(BenchKind::Cas)
    } else if selector == 2 {
        Some(BenchKind::ReadWrite)
    } else if selector == 3 {
        Some(BenchKind::MsgPassing)
    } else {
        None
    }
}

/// The protocol that goes by number `selector`: 1, 2 or 3; `None` for any
/// other number.
pub fn bench_kind(selector: usize) -> (kind: Option<BenchKind>)
    ensures
        kind == kind_of(selector),
{
    if selector == 1 {
        Some(BenchKind::Cas)
    } else if selector == 2 {
        Some(BenchKind::ReadWrite)
    } else if selector == 3 {
        Some(BenchKind::MsgPassing)
    } else {
        None
    }
}

/// The position of `id` in `ids`, if it is there.
pub fn position(ids: &[usize], id: usize) -> (at: Option<usize>)
    ensures
        match at {
            Some(k) => k < ids.len() && ids[k as int] == id && !ids@.take(k as int).contains(id),
            None => !ids@.contains(id),
        },
{
    let mut k: usize = 0;
    while k < ids.len()
        invariant
            k <= ids.len(),
            !ids@.take(k as int).contains(id),
        decreases ids.len() - k,
    {
        if ids[k] == id {
            return Some(k);
        }
        proof {
            assert(ids@.take(k + 1) =~= ids@.take(k as int).push(ids[k as int]));
        }
        k = k + 1;
    }
    proof {
        assert(ids@.take(k as int) =~= ids@);
    }
    None
}

/// The hardware threads to measure: all the `available` ones where none are
/// `wanted`, else the wanted ones in the order asked for. Fails with the
/// first wanted identifier that is not available.
pub fn select_cores(available: &[usize], wanted: &[usize]) -> (selected: Result<Vec<usize>, usize>)
    ensures
        match selected {
            Ok(cores) => {
                &&& cores@ == if wanted.len() == 0 {
                    available@
                } else {
                    wanted@
                }
                &&& forall|k: int| 0 <= k < wanted.len() ==> available@.contains(wanted[k])
            },
            Err(id) => exists|k: int|
                {
                    &&& 0 <= k < wanted.len()
                    &&& wanted[k] == id
                    &&& !available@.contains(id)
                    &&& forall|e: int| 0 <= e < k ==> available@.contains(#[trigger] wanted[e])
                },
        },
{
    let mut cores: Vec<usize> = Vec::new();
    if wanted.len() == 0 {
        let mut k: usize = 0;
        while k < available.len()
            invariant
                k <= available.len(),
                cores@ == available@.take(k as int),
            decreases available.len() - k,
        {
            cores.push(available[k]);
            proof {
                assert(available@.take(k + 1) =~= available@.take(k as int).push(
                    available[k as int],
                ));
            }
            k = k + 1;
        }
        proof {
            assert(available@.take(k as int) =~= available@);
        }
        return Ok(cores);
    }
    let mut k: usize = 0;
    while k < wanted.len()
        invariant
            k <= wanted.len(),
            cores@ == wanted@.take(k as int),
            forall|e: int| 0 <= e < k ==> available@.contains(#[trigger] wanted[e]),
        decreases wanted.len() - k,
    {
        let id = wanted[k];
        if position(available, id).is_none() {
            return Err(id);
        }
        cores.push(id);
        proof {
            assert(wanted@.take(k + 1) =~= wanted@.take(k as int).push(wanted[k as int]));
        }
        k = k + 1;
    }
    proof {
        assert(wanted@.take(k as int) =~= wanted@);
    }
    Ok(cores)
}

} // verus!
