use vstd::prelude::*;

verus! {

/// How long a freshly minted non-fungible must wait before it can be melted.
pub const COOLDOWN_HOURS: i64 = 4;

/// The Unix timestamps (in seconds) that scrypto's `UtcDateTime` can hold:
/// from `1-1-1 00:00:00` to `4294967295-12-31 23:59:59`.
pub open spec fn utc_supported(t: int) -> bool {
    -62135596800 <= t <= 135536014634284799
}

/// The minute that a timestamp falls in, rounding down.
pub open spec fn minute_of(t: int) -> int {
    t / 60
}

/// The end of the cooldown of a non-fungible minted at `last_roll`, if the
/// calendar can express both instants.
pub open spec fn cooldown_end_spec(last_roll: int) -> Option<int> {
    if utc_supported(last_roll) && utc_supported(last_roll + 3600 * COOLDOWN_HOURS) {
        Some(last_roll + 3600 * COOLDOWN_HOURS)
    } else {
        None
    }
}

/// Calls scrypto's `UtcDateTime::add_hours` on the calendar date of the Unix
/// timestamp `seconds` and turns the result back into a timestamp. Trusted:
/// `UtcDateTime::from_instant` fails outside `utc_supported`, and
/// `add_hours` converts to an `Instant`, adds `hours * 3600` seconds with
/// checked arithmetic and converts back, failing where the sum leaves that
/// range; converting a supported timestamp to a date and back gives it
/// unchanged.
#[verifier::external_body]
fn utc_add_hours(seconds: i64, hours: i64) -> (r: Option<i64>)
    ensures
        r == (if utc_supported(seconds as int) && utc_supported(seconds + 3600 * hours) {
            Some((seconds + 3600 * hours) as i64)
        } else {
            None::<i64>
        }),
{
    let start = scrypto::prelude::UtcDateTime::try_from(scrypto::prelude::Instant::new(seconds)).ok()?;
    start.add_hours(hours).map(|d| scrypto::prelude::Instant::from(d).seconds_since_unix_epoch)
}

/// The instant (Unix seconds) at which a non-fungible minted at `last_roll`
/// may be melted: `COOLDOWN_HOURS` later on the UTC calendar. `None` where the
/// calendar cannot express one of the two instants.
pub fn cooldown_end(last_roll: i64) -> (r: Option<i64>)
    ensures
        r matches Some(t) ==> cooldown_end_spec(last_roll as int) == Some(t as int),
        r is None <==> cooldown_end_spec(last_roll as int) is None,
        r is Some <==> utc_supported(last_roll as int) && utc_supported(last_roll + 14400),
        r matches Some(t) ==> t == last_roll + 4 * 3600,
{
    utc_add_hours(last_roll, COOLDOWN_HOURS)
}

/// The cooldown lasts four hours whatever the time of day: for every instant
/// the calendar holds (with the instant four hours later), it ends exactly
/// 4 * 3600 seconds after the mint.
pub proof fn lemma_cooldown_lasts_four_hours(t: int)
    requires
        utc_supported(t),
        utc_supported(t + 14400),
    ensures
        cooldown_end_spec(t) == Some(t + 4 * 3600),
{
}

/// Whether `now`, rounded down to the minute, is at or after `t`, rounded down
/// to the minute.
pub fn is_at_or_after_minute(now: i64, t: i64) -> (b: bool)
    ensures
        b == (minute_of(now as int) >= minute_of(t as int)),
{
    let now_minute = now.checked_div_euclid(60).unwrap();
    let t_minute = t.checked_div_euclid(60).unwrap();
    now_minute >= t_minute
}

} // verus!
