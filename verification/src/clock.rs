//! The time, and identifiers drawn for one operation.
use vstd::prelude::*;
use crate::ids::Ulid;

verus! {

/// The error of `std::time::SystemTime::elapsed`.
#[verifier::external_type_specification]
#[verifier::external_body]
pub struct ExSystemTimeError(std::time::SystemTimeError);

/// Calls `std::time::SystemTime::elapsed` on the epoch: how long ago it was, or an error
/// where the clock stands before it. Nothing is claimed of the value: it is the clock's.
#[verifier::external_body]
fn since_epoch() -> (r: Result<core::time::Duration, std::time::SystemTimeError>) {
    std::time::UNIX_EPOCH.elapsed()
}

/// Calls `core::time::Duration::as_millis`: the whole milliseconds of a duration. Nothing is
/// claimed of the value, as nothing is said of the duration.
#[verifier::external_body]
fn whole_millis(duration: core::time::Duration) -> (r: u128) {
    duration.as_millis()
}

/// The milliseconds since the epoch, or none where the clock stands before it.
fn millis_since_epoch() -> (r: u128) {
    match since_epoch() {
        Ok(duration) => whole_millis(duration),
        Err(_) => 0,
    }
}

/// A number of milliseconds, cut off at the latest instant that can be stored.
pub fn clamp_millis(millis: u128) -> (r: i64)
    ensures
        r == (if millis <= i64::MAX { millis as int } else { i64::MAX as int }),
{
    if millis <= i64::MAX as u128 {
        millis as i64
    } else {
        i64::MAX
    }
}

/// The present instant, never before the epoch.
pub fn now_ms() -> (r: i64)
    ensures
        r >= 0,
{
    clamp_millis(millis_since_epoch())
}

/// What an operation takes from the clock and from chance.
#[derive(Debug, PartialEq, Eq)]
pub struct Fresh {
    pub recorded_at_ms: i64,
    pub ids: Vec<Ulid>,
}

/// What a [`Fresh`] holds.
#[verifier::ext_equal]
pub struct FreshModel {
    pub recorded_at_ms: i64,
    pub ids: Seq<Ulid>,
}

impl View for Fresh {
    type V = FreshModel;

    open spec fn view(&self) -> FreshModel {
        FreshModel { recorded_at_ms: self.recorded_at_ms, ids: self.ids@ }
    }
}

impl Fresh {
    /// The present instant and `n` freshly drawn identifiers.
    pub fn draw(n: usize) -> (r: Fresh)
        ensures
            r.recorded_at_ms >= 0,
            r.ids@.len() == n,
    {
        let recorded_at_ms: i64 = now_ms();
        let mut ids: Vec<Ulid> = Vec::new();
        for i in 0..n
            invariant
                ids@.len() == i,
        {
            ids.push(Ulid::new());
        }
        Fresh { recorded_at_ms, ids }
    }
}

} // verus!
