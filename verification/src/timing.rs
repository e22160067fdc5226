//! Delta-time helpers over monotonic timestamps.
//!
//! A timestamp here is a plain count of microseconds since an arbitrary
//! epoch, as a host clock service reports it.  One scalar raw step is also
//! one millionth, so a duration in microseconds is already a scalar count
//! of seconds.

use vstd::prelude::*;
use crate::scalar::Scalar;

verus! {

/// Delta time in seconds between two timestamps in microseconds, or
/// `None` if `last_micros` is after `now_micros`.
pub fn try_delta_time(now_micros: i64, last_micros: i64) -> (r: Option<Scalar>)
    requires
        i64::MIN as int <= now_micros as int - last_micros as int <= i64::MAX as int,
    ensures
        r is None <==> now_micros < last_micros,
        r matches Some(dt) ==> dt@ == now_micros as int - last_micros as int,
{
    if now_micros < last_micros {
        None
    } else {
        Some(Scalar::from_micros(now_micros - last_micros))
    }
}

/// Delta time in seconds, or `fallback` if `last_micros` is after
/// `now_micros`.
pub fn delta_time_or(now_micros: i64, last_micros: i64, fallback: Scalar) -> (r: Scalar)
    requires
        i64::MIN as int <= now_micros as int - last_micros as int <= i64::MAX as int,
    ensures
        now_micros < last_micros ==> r == fallback,
        now_micros >= last_micros ==> r@ == now_micros as int - last_micros as int,
{
    match try_delta_time(now_micros, last_micros) {
        Some(dt) => dt,
        None => fallback,
    }
}

} // verus!
