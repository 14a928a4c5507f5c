//! The time, and identifiers that nobody has used before.

use std::time::{Duration, SystemTime};
use vstd::prelude::*;

verus! {

/// A point in time, as the system tells it.
#[verifier::external_type_specification]
#[verifier::external_body]
pub struct ExSystemTime(std::time::SystemTime);

/// `SystemTime::now`: the present time. Nothing is claimed of it.
#[verifier::external_body]
fn now() -> (t: SystemTime) {
    SystemTime::now()
}

/// By how many nanoseconds a point in time lies behind the Unix epoch; negative for one
/// before it.
pub uninterp spec fn epoch_nanos(t: SystemTime) -> int;

/// The length of a duration in nanoseconds.
pub uninterp spec fn duration_nanos(d: Duration) -> nat;

/// `SystemTime::duration_since` the Unix epoch: the time that has passed since then;
/// nothing for a time before it.
#[verifier::external_body]
fn since_epoch(t: SystemTime) -> (d: Option<Duration>)
    ensures
        match d {
            Some(d) => duration_nanos(d) == epoch_nanos(t),
            None => epoch_nanos(t) < 0,
        },
{
    t.duration_since(std::time::UNIX_EPOCH).ok()
}

/// `Duration::as_millis`: the whole milliseconds of a duration.
#[verifier::external_body]
fn millis(d: Duration) -> (n: u128)
    ensures
        n == duration_nanos(d) / 1_000_000,
{
    d.as_millis()
}

/// Milliseconds as a clock reading; a clock before the epoch reads zero.
pub open spec fn reading(n: Option<u128>) -> u64 {
    match n {
        Some(n) => n as u64,
        None => 0,
    }
}

/// Milliseconds as a clock reading.
pub fn clock_reading(n: Option<u128>) -> (r: u64)
    ensures
        r == reading(n),
{
    match n {
        Some(n) => #[verifier::truncate]
        (n as u64),
        None => 0,
    }
}

/// What a clock reads at a point in time: the whole milliseconds since the Unix epoch.
pub open spec fn reading_at(t: SystemTime) -> u64 {
    if epoch_nanos(t) >= 0 {
        reading(Some((epoch_nanos(t) / 1_000_000) as u128))
    } else {
        reading(None)
    }
}

/// The present time in milliseconds since the Unix epoch: what a clock reads at some
/// point in time. Which point that is depends on the system, and nothing is claimed of
/// it.
pub fn unix_ms() -> (r: u64)
    ensures
        exists|t: SystemTime| r == #[trigger] reading_at(t),
{
    let t = now();
    let r: u64 = match since_epoch(t) {
        Some(d) => clock_reading(Some(millis(d))),
        None => clock_reading(None),
    };
    assert(r == reading_at(t));
    r
}

/// The present time in UTC as `chrono::DateTime::to_rfc3339` writes it. Nothing is
/// claimed of the text, which depends on the clock.
#[verifier::external_body]
pub(crate) fn utc_date() -> (r: String) {
    chrono::Utc::now().to_rfc3339()
}

/// A lower case hexadecimal digit.
pub open spec fn is_hex(c: char) -> bool {
    '0' <= c <= '9' || 'a' <= c <= 'f'
}

/// The text has the shape of an identifier: groups of 8, 4, 4, 4 and 12 hexadecimal
/// digits with hyphens between them.
pub open spec fn is_id(s: Seq<char>) -> bool {
    &&& s.len() == 36
    &&& forall|i: int|
        0 <= i < 36 ==> if i == 8 || i == 13 || i == 18 || i == 23 {
            #[trigger] s[i] == '-'
        } else {
            is_hex(s[i])
        }
}

/// `uuid::Uuid::new_v4` as text: hyphenated, in lower case. Which digits come out is
/// left to chance.
#[verifier::external_body]
pub(crate) fn fresh_id() -> (r: String)
    ensures
        is_id(r@),
{
    uuid::Uuid::new_v4().to_string()
}

/// An identifier can be a part of a file's name: it holds neither a dot nor a slash.
pub proof fn ids_are_file_names(s: Seq<char>)
    requires
        is_id(s),
    ensures
        !s.contains('.'),
        !s.contains('/'),
        s.len() > 0,
{
    assert forall|i: int| 0 <= i < s.len() implies s[i] != '.' && s[i] != '/' by {
        assert(s[i] == '-' || is_hex(s[i]));
    }
}

/// An identifier for a new record.
pub fn new_id() -> (r: String)
    ensures
        is_id(r@),
{
    fresh_id()
}

/// An identifier for a worker: what it works on, and a part that nobody shares.
pub fn worker_id(prefix: &str) -> (r: String)
    ensures
        r@.len() == prefix@.len() + 36,
        prefix@.is_prefix_of(r@),
        is_id(r@.skip(prefix@.len() as int)),
{
    let id = fresh_id();
    let r = crate::text::concat(prefix, id.as_str());
    proof {
        assert(r@.take(prefix@.len() as int) =~= prefix@);
        assert(r@.skip(prefix@.len() as int) =~= id@);
    }
    r
}

/// A clock reads whole milliseconds, and zero before the epoch; it reads the present time
/// no differently.
pub proof fn clocks_read_milliseconds(n: Option<u128>, r: u64, now: u64)
    requires
        call_ensures(clock_reading, (n,), r),
        call_ensures(unix_ms, (), now),
    ensures
        n is None ==> r == 0,
        n matches Some(ms) ==> (ms <= u64::MAX ==> r == ms),
        exists|t: SystemTime|
            epoch_nanos(t) < 0 && now == 0 || 0 <= #[trigger] epoch_nanos(t) && (epoch_nanos(t)
                / 1_000_000 <= u64::MAX ==> now == epoch_nanos(t) / 1_000_000),
{
    let t = choose|t: SystemTime| now == #[trigger] reading_at(t);
    assert(epoch_nanos(t) < 0 || epoch_nanos(t) >= 0);
}

/// An identifier has the shape of a UUID: 36 characters, of which those between its five
/// groups are hyphens and the others lower case hexadecimal digits. A worker's has its
/// prefix in front.
pub proof fn identifiers_have_five_groups(r: String, prefix: &str, worker: String, i: int)
    requires
        call_ensures(new_id, (), r),
        call_ensures(worker_id, (prefix,), worker),
    ensures
        r@.len() == 36,
        r@[8] == '-' && r@[13] == '-' && r@[18] == '-' && r@[23] == '-',
        0 <= i < 36 && i != 8 && i != 13 && i != 18 && i != 23 ==> '0' <= r@[i] <= '9' || 'a'
            <= r@[i] <= 'f',
        worker@.len() == prefix@.len() + 36,
        worker@.take(prefix@.len() as int) == prefix@,
        is_id(worker@.skip(prefix@.len() as int)),
{
    assert(worker@.take(prefix@.len() as int) =~= prefix@);
}

} // verus!
