use vstd::prelude::*;

verus! {

/// Relies on `std::time::SystemTime::now`: the wall clock, read as whole
/// seconds since the Unix epoch (`None` when the clock stands before it).
#[verifier::external_body]
fn seconds_since_epoch() -> (r: Option<u64>) {
    std::time::SystemTime::now().duration_since(std::time::UNIX_EPOCH).ok().map(|d| d.as_secs())
}

/// The current time in whole seconds since the Unix epoch; a clock set
/// before the epoch reads as zero.
pub fn timestamp() -> (r: u64) {
    match seconds_since_epoch() {
        Some(t) => t,
        None => 0,
    }
}

} // verus!
