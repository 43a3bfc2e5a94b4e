//! The time of day.

use vstd::prelude::*;

verus! {

/// `SystemTime::elapsed` on the Unix epoch: the seconds and the nanoseconds
/// since 1970, nothing where the clock stands before it. The time itself is
/// the machine's; only that the nanoseconds are less than a second is known.
#[verifier::external_body]
fn depuis_1970() -> (r: Option<(u64, u32)>)
    ensures
        r matches Some((s, n)) ==> n < 1_000_000_000,
{
    match std::time::UNIX_EPOCH.elapsed() {
        Ok(d) => Some((d.as_secs(), d.subsec_nanos())),
        Err(_) => None,
    }
}

/// Milliseconds since 1970, cut to 64 bits; 0 before 1970.
pub open spec fn millisecondes(t: Option<(u64, u32)>) -> u64 {
    match t {
        Some((s, n)) => (s * 1000 + n / 1_000_000) as u64,
        None => 0,
    }
}

/// Milliseconds since 1970, cut to 64 bits; 0 before 1970.
pub fn en_ms(t: Option<(u64, u32)>) -> (r: u64)
    ensures
        r == millisecondes(t),
        t matches Some((s, n)) ==> s < 10_000_000_000 ==> r == s * 1000 + n / 1_000_000,
{
    match t {
        Some((s, n)) => {
            let ms: u128 = s as u128 * 1000 + (n / 1_000_000) as u128;
            #[verifier::truncate]
            let r: u64 = ms as u64;
            r
        },
        None => 0,
    }
}

/// The time of day in Unix milliseconds, the unit of the server's dates.
pub fn maintenant_ms() -> u64 {
    en_ms(depuis_1970())
}

/// A number that two machines rarely share, out of the nanoseconds of a time.
pub fn alea_de(t: Option<(u64, u32)>) -> (r: u64)
    ensures
        r == match t {
            Some((s, n)) => n as u64,
            None => 0,
        },
{
    match t {
        Some((_, n)) => n as u64,
        None => 0,
    }
}

/// Something like chance: the nanoseconds of the clock. Spreading out
/// reconnections asks no more than that two machines draw different numbers.
pub fn alea() -> (r: u64)
    ensures
        r < 1_000_000_000,
{
    alea_de(depuis_1970())
}

} // verus!
