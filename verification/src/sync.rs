//! How the two threads of a run meet: the rendezvous barrier, the padding that
//! keeps a value on a cache line of its own, the bound on spinning, and the
//! scope that runs the two sides of a protocol.

use vstd::prelude::*;
use std::ops::Deref;
use std::sync::atomic::{AtomicBool, Ordering};
use std::sync::Barrier;
use cache_padded::CachePadded;

verus! {

#[verifier::external_type_specification]
#[verifier::external_body]
pub struct ExBarrier(Barrier);

#[verifier::external_type_specification]
#[verifier::external_body]
#[verifier::reject_recursive_types(T)]
pub struct ExCachePadded<T>(CachePadded<T>);

/// `std::sync::Barrier::new`: a barrier that releases its waiters once
/// `parties` threads have arrived.
#[verifier::external_body]
pub(crate) fn new_barrier(parties: usize) -> (barrier: Barrier) {
    Barrier::new(parties)
}

/// `std::sync::Barrier::wait`: blocks until all parties of the barrier have
/// arrived. Which of them is told that it is the leader is not used.
#[verifier::external_body]
pub(crate) fn rendezvous(barrier: &Barrier) {
    barrier.wait();
}

/// `CachePadded::new`: the value, aligned and padded to a cache line of its
/// own. The padded value is opaque here, so nothing is said of it.
pub assume_specification<T>[ CachePadded::<T>::new ](t: T) -> (padded: CachePadded<T>);

/// `Deref::deref` of `CachePadded`: a reference to the value inside the
/// padding.
#[verifier::external_body]
pub(crate) fn unpadded<T>(padded: &CachePadded<T>) -> (inner: &T) {
    padded.deref()
}

/// `crossbeam_utils::thread::scope` with two spawned threads: runs `peer` and
/// `timed` each on a thread of its own, waits for both, and hands back what
/// `timed` returned. The crate panics where the system refuses a thread; that
/// depends on the system's state and on no argument.
#[verifier::external_body]
pub(crate) fn run_pair<T: Send, F: FnOnce() -> T + Send, G: FnOnce() + Send>(timed: F, peer: G) -> (out: T)
    requires
        timed.requires(()),
        peer.requires(()),
    ensures
        timed.ensures((), out),
{
    crossbeam_utils::thread::scope(|s| {
        let peer = s.spawn(move |_| peer());
        let timed = s.spawn(move |_| timed());
        peer.join().unwrap();
        timed.join().unwrap()
    }).unwrap()
}

/// How often a spinning thread retries before it gives up waiting and goes
/// on. A spin must be bounded to be shown to end; at one attempt per
/// nanosecond this bound is reached after more than five centuries, so a
/// handshake that is stuck looks like one that hangs.
pub const SPIN_LIMIT: u64 = 0xffff_ffff_ffff_ffff;

/// What a spin has to show for its attempts, each marked by whether it
/// found what the spin waits for: there was at least one and there were at
/// most `SPIN_LIMIT`, none but the last found it, the spin reports what the
/// last one found, and it gave up only after `SPIN_LIMIT` of them.
pub open spec fn spun(attempts: Seq<bool>, found: bool) -> bool {
    &&& 1 <= attempts.len() <= SPIN_LIMIT
    &&& forall|k: int| 0 <= k < attempts.len() - 1 ==> !#[trigger] attempts[k]
    &&& found == attempts.last()
    &&& !found ==> attempts.len() == SPIN_LIMIT
}

/// Reads the flag, with the ordering given, until it holds `value` or was
/// read `SPIN_LIMIT` times. Returns whether it held `value`, and its
/// readings, each marked by whether it did.
pub(crate) fn await_flag(flag: &AtomicBool, value: bool, ordering: Ordering) -> (spin: (
    bool,
    Ghost<Seq<bool>>,
))
    requires
        ordering != Ordering::Release,
        ordering != Ordering::AcqRel,
    ensures
        spun(spin.1@, spin.0),
{
    let mut left: u64 = SPIN_LIMIT;
    let ghost mut attempts: Seq<bool> = Seq::empty();
    while left > 0
        invariant
            ordering != Ordering::Release,
            ordering != Ordering::AcqRel,
            attempts.len() == SPIN_LIMIT - left,
            forall|k: int| 0 <= k < attempts.len() ==> !#[trigger] attempts[k],
        decreases left,
    {
        if flag.load(ordering) == value {
            proof {
                attempts = attempts.push(true);
            }
            return (true, Ghost(attempts));
        }
        proof {
            attempts = attempts.push(false);
        }
        left = left - 1;
    }
    (false, Ghost(attempts))
}

} // verus!
