use vstd::prelude::*;

verus! {

/// A record whose remaining lifetime is above this many ledgers needs no
/// renewal yet.
pub const TTL_THRESHOLD: u32 = 120_960;

/// The lifetime, in ledgers, asked for the administrator, the active session
/// and presence records.
pub const STANDARD_HORIZON: u32 = 518_400;

/// The lifetime, in ledgers, asked for user profiles.
pub const EXTENDED_HORIZON: u32 = 1_555_200;

/// The ledger through which a record lives once an extension request with
/// `threshold` and `extend_to` has been served at ledger `now`: a record with
/// more than `threshold` ledgers left is not changed, any other lives for
/// at least `extend_to` ledgers from `now`.
pub open spec fn renewed(live_until: u64, now: u32, threshold: u32, extend_to: u32) -> u64 {
    if live_until - now > threshold || live_until >= now + extend_to {
        live_until
    } else {
        (now + extend_to) as u64
    }
}

/// Serves one extension request.
pub fn renew(live_until: u64, now: u32, threshold: u32, extend_to: u32) -> (r: u64)
    ensures
        r == renewed(live_until, now, threshold, extend_to),
{
    let now_wide: u64 = now as u64;
    let target: u64 = now_wide + extend_to as u64;
    if live_until >= target {
        live_until
    } else if live_until > now_wide && live_until - now_wide > threshold as u64 {
        live_until
    } else {
        target
    }
}

/// A request never shortens a lifetime, and after it the record has either
/// more than `threshold` ledgers left or at least `extend_to`.
pub proof fn renewal_extends(live_until: u64, now: u32, threshold: u32, extend_to: u32)
    ensures
        renewed(live_until, now, threshold, extend_to) >= live_until,
        renewed(live_until, now, threshold, extend_to) - now > threshold || renewed(
            live_until,
            now,
            threshold,
            extend_to,
        ) - now >= extend_to,
{
}

/// Serving the same request again at the same ledger changes nothing.
pub proof fn renewal_is_idempotent(live_until: u64, now: u32, threshold: u32, extend_to: u32)
    ensures
        renewed(renewed(live_until, now, threshold, extend_to), now, threshold, extend_to)
            == renewed(live_until, now, threshold, extend_to),
{
}

/// The extended horizon is three times the standard one, and both lie above
/// the threshold, so that a record just renewed is not renewed again at once.
pub proof fn horizons_are_ordered()
    ensures
        EXTENDED_HORIZON == 3 * STANDARD_HORIZON,
        TTL_THRESHOLD < STANDARD_HORIZON < EXTENDED_HORIZON,
{
}

} // verus!
