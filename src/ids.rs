//! Identifiers for users and messages.
use vstd::prelude::*;

use crate::text::{decimal_of, decimal_text, hex4_of, hex4_text};
use crate::timestamp::{now, Timestamp};

verus! {

/// The id text for an instant and a random salt: the nanoseconds since the
/// epoch in decimal, a dash, and the salt as four hex digits.
pub open spec fn id_text(nanos: int, salt: u16) -> Seq<char> {
    decimal_of(nanos) + seq!['-'] + hex4_of(salt)
}

/// Nanoseconds since the epoch, or zero where they do not fit in an `i64`.
pub open spec fn nanos_or_zero(t: Timestamp) -> int {
    if i64::MIN <= t.spec_total_nanos() <= i64::MAX {
        t.spec_total_nanos()
    } else {
        0
    }
}

/// Relies on `rand::thread_rng` and `Rng::gen_range` over `0..bound`: a
/// value below `bound` (the range must not be empty).
#[verifier::external_body]
fn random_below(bound: u16) -> (r: u16)
    requires
        bound > 0,
    ensures
        r < bound,
{
    rand::Rng::gen_range(&mut rand::thread_rng(), 0..bound)
}

/// The id of a message accepted at `at`: its nanoseconds in decimal.
pub fn message_id(at: Timestamp) -> (r: String)
    ensures
        r@ == decimal_of(nanos_or_zero(at)),
{
    let nanos: i64 = match at.nanos_since_epoch() {
        Some(n) => n,
        None => 0,
    };
    decimal_text(nanos as i128)
}

/// Formats a user id from an instant and a salt.
pub fn format_id(at: Timestamp, salt: u16) -> (r: String)
    ensures
        r@ == id_text(nanos_or_zero(at), salt),
{
    let mut s = message_id(at);
    s.append("-");
    let tail = hex4_text(salt);
    s.append(tail.as_str());
    proof {
        reveal_strlit("-");
    }
    assert(s@ =~= id_text(nanos_or_zero(at), salt));
    s
}

/// A fresh user id: the current instant and a random salt below `0xFFFF`.
pub fn generate_id() -> (r: String)
    ensures
        exists|t: Timestamp, salt: u16| salt < 0xFFFF && r@ == id_text(nanos_or_zero(t), salt),
{
    let at = now();
    let salt = random_below(0xFFFF);
    format_id(at, salt)
}

} // verus!
