//! Ids for new sessions and profiles, made from the clock.
use vstd::prelude::*;
use crate::text::{hex, hex_chars, string_of, zero_pad, zero_pad_chars};

verus! {

/// The id for a moment: seconds since the epoch in hex, a dash, and the
/// milliseconds in hex padded to four digits.
pub open spec fn id_text(secs: u64, millis: u32) -> Seq<char> {
    hex(secs as nat) + seq!['-'] + zero_pad(hex(millis as nat), 4)
}

/// The id for a moment (see `id_text`).
pub fn format_id(secs: u64, millis: u32) -> (r: String)
    ensures
        r@ == id_text(secs, millis),
{
    let mut v = hex_chars(secs);
    v.push('-');
    let m = hex_chars(millis as u64);
    let p = zero_pad_chars(&m, 4);
    let ghost head = v@;
    let mut i: usize = 0;
    while i < p.len()
        invariant
            i <= p.len(),
            v@ == head + p@.take(i as int),
        decreases p.len() - i,
    {
        v.push(p[i]);
        assert(p@.take(i + 1) =~= p@.take(i as int).push(p@[i as int]));
        i = i + 1;
    }
    assert(p@.take(p.len() as int) =~= p@);
    assert(v@ =~= id_text(secs, millis));
    string_of(v.as_slice())
}

/// The clock's present reading (`SystemTime`), carried through unread.
#[verifier::external_type_specification]
#[verifier::external_body]
pub struct ExSystemTime(std::time::SystemTime);

/// Reads the clock (`SystemTime::now`); nothing is stated of the moment.
#[verifier::external_body]
fn system_now() -> (r: std::time::SystemTime) {
    std::time::SystemTime::now()
}

/// The time from the epoch to `t` (`SystemTime::duration_since` with
/// `UNIX_EPOCH`); a moment before the epoch, which that call refuses, reads
/// as zero. Nothing is stated of the length.
#[verifier::external_body]
fn since_epoch(t: &std::time::SystemTime) -> (r: std::time::Duration) {
    match t.duration_since(std::time::UNIX_EPOCH) {
        Ok(d) => d,
        Err(_) => std::time::Duration::ZERO,
    }
}

/// The whole seconds of `d` (`Duration::as_secs`).
#[verifier::external_body]
fn duration_secs(d: &std::time::Duration) -> (r: u64) {
    d.as_secs()
}

/// The milliseconds of `d` past its whole seconds (`Duration::subsec_millis`),
/// which std documents as fewer than a thousand.
#[verifier::external_body]
fn duration_millis(d: &std::time::Duration) -> (r: u32)
    ensures
        r < 1000,
{
    d.subsec_millis()
}

/// A new id from the clock: the id of the present moment.
pub fn uuid_simple() -> (r: String)
    ensures
        exists|secs: u64, millis: u32| millis < 1000 && r@ == id_text(secs, millis),
{
    let now = system_now();
    let d = since_epoch(&now);
    format_id(duration_secs(&d), duration_millis(&d))
}

} // verus!
