//! Binding the calling thread to a hardware thread.

use vstd::prelude::*;

verus! {

/// Identifiers from here on are never handed to the system's affinity call.
pub const PIN_LIMIT: usize = 64;

/// `core_affinity::set_for_current`: asks the system to run the calling thread
/// on hardware thread `id` only. The crate drops the system's answer, so
/// nothing is known afterwards. On Linux it sets bit `id` of a set of 1024
/// CPUs and indexes past the set for a larger `id`; on Windows it shifts a
/// 64-bit mask by `id`. Below `PIN_LIMIT` both are in range.
#[verifier::external_body]
fn set_affinity(id: usize)
    requires
        id < PIN_LIMIT,
{
    core_affinity::set_for_current(core_affinity::CoreId { id });
}

/// Pins the calling thread to hardware thread `id` as far as the system
/// allows. Returns whether the system was asked at all; a `false` means that
/// the thread goes on unpinned.
pub fn pin_current_thread_to(id: usize) -> (attempted: bool)
    ensures
        attempted == (id < PIN_LIMIT),
{
    if id < PIN_LIMIT {
        set_affinity(id);
        true
    } else {
        false
    }
}

} // verus!
