//! An in-memory key–value cache whose entries may expire.
//!
//! Time is read from a monotonic clock as nanoseconds since the store was
//! made. Each operation that depends on the time has a form that takes the
//! time as an argument (`*_at`), with an exact contract, and a form that
//! reads the clock and then does the same.

use vstd::prelude::*;
use std::time::{Duration, Instant};
use crate::strmap::StrMap;
use crate::text::{parse_i64, parse_i64_spec, push_signed_decimal, signed_decimal, texts};

verus! {

/// `std::time::Instant`, a point of the monotonic clock.
#[verifier::external_type_specification]
#[verifier::external_body]
pub struct ExInstant(Instant);

/// The largest number of nanoseconds that a `Duration` holds.
pub const MAX_DURATION_NANOS: u128 = 18446744073709551615999999999u128;

/// `Instant::now`. Nothing is claimed of the point that it gives.
#[verifier::external_body]
fn clock_now() -> Instant {
    Instant::now()
}

/// `Instant::elapsed`: the time since `origin`. Nothing is claimed of it.
#[verifier::external_body]
fn elapsed_since(origin: &Instant) -> Duration {
    origin.elapsed()
}

/// `Duration::as_nanos`: the whole duration in nanoseconds. Claimed only:
/// it is at most what the largest `Duration` holds.
#[verifier::external_body]
fn duration_nanos(d: &Duration) -> (r: u128)
    ensures
        r <= MAX_DURATION_NANOS,
{
    d.as_nanos()
}

/// A cached value and the time after which it has expired, if any.
#[derive(Debug)]
pub struct CacheEntry {
    pub value: String,
    pub expires_at: Option<u128>,
}

impl View for CacheEntry {
    type V = (Seq<char>, Option<u128>);

    open spec fn view(&self) -> (Seq<char>, Option<u128>) {
        (self.value@, self.expires_at)
    }
}

/// The contents of a store: each key's value and expiry time.
pub type CacheMap = Map<Seq<char>, (Seq<char>, Option<u128>)>;

/// An entry has expired once the time is past its expiry time.
pub open spec fn is_expired(e: (Seq<char>, Option<u128>), now: u128) -> bool {
    match e.1 {
        Some(t) => now > t,
        None => false,
    }
}

/// The value that a read of `k` at time `now` gives: the stored value,
/// unless there is none or it has expired.
pub open spec fn cached_value(m: CacheMap, k: Seq<char>, now: u128) -> Option<Seq<char>> {
    if m.contains_key(k) && !is_expired(m[k], now) {
        Some(m[k].0)
    } else {
        None
    }
}

/// The expiry time of an entry stored at `now` that lives for `ttl`.
pub open spec fn expiry(ttl: Option<u128>, now: u128) -> Option<u128> {
    match ttl {
        Some(d) => Some((now + d) as u128),
        None => None,
    }
}

/// A lifetime that a `Duration` can hold.
pub open spec fn valid_ttl(ttl: Option<u128>) -> bool {
    match ttl {
        Some(d) => d <= MAX_DURATION_NANOS,
        None => true,
    }
}

/// The number that a counter under `k` holds: its value read as an `i64`,
/// or 0 when it is absent or does not read as one. An expired entry still
/// counts.
pub open spec fn counter_value(m: CacheMap, k: Seq<char>) -> int {
    if m.contains_key(k) {
        match parse_i64_spec(m[k].0) {
            Some(v) => v as int,
            None => 0,
        }
    } else {
        0
    }
}

/// The expiry time that a counter under `k` keeps: that of its entry, or
/// none for a new counter.
pub open spec fn counter_expiry(m: CacheMap, k: Seq<char>) -> Option<u128> {
    if m.contains_key(k) {
        m[k].1
    } else {
        None
    }
}

/// The entries that have not expired at `now`.
pub open spec fn pruned(m: CacheMap, now: u128) -> CacheMap {
    Map::new(|k: Seq<char>| m.contains_key(k) && !is_expired(m[k], now), |k: Seq<char>| m[k])
}

/// An in-memory cache of string values by string keys.
pub struct MemoryStore {
    data: StrMap<CacheEntry>,
    origin: Instant,
}

impl View for MemoryStore {
    type V = CacheMap;

    closed spec fn view(&self) -> CacheMap {
        self.data@
    }
}

impl MemoryStore {
    /// An empty store.
    pub fn new() -> (r: Self)
        ensures
            r@ == CacheMap::empty(),
    {
        MemoryStore { data: StrMap::new(), origin: clock_now() }
    }

    /// The time now, in nanoseconds since the store was made.
    pub fn now(&self) -> (r: u128)
        ensures
            r <= MAX_DURATION_NANOS,
    {
        let d = elapsed_since(&self.origin);
        duration_nanos(&d)
    }

    /// Stores `value` under `key` at time `now`; with a lifetime `ttl` it
    /// expires after `now + ttl`.
    pub fn set_at(&mut self, key: &str, value: &str, ttl: Option<u128>, now: u128)
        requires
            valid_ttl(ttl),
            now <= MAX_DURATION_NANOS,
        ensures
            final(self)@ == old(self)@.insert(key@, (value@, expiry(ttl, now))),
    {
        let expires_at = match ttl {
            Some(d) => Some(now + d),
            None => None,
        };
        let entry = CacheEntry { value: value.to_string(), expires_at };
        self.data.insert(key.to_string(), entry);
    }

    /// Stores `value` under `key`, with an optional lifetime in nanoseconds
    /// counted from now.
    pub fn set(&mut self, key: &str, value: &str, ttl: Option<u128>)
        requires
            valid_ttl(ttl),
        ensures
            exists|now: u128|
                now <= MAX_DURATION_NANOS && final(self)@ == old(self)@.insert(
                    key@,
                    (value@, expiry(ttl, now)),
                ),
    {
        let now = self.now();
        self.set_at(key, value, ttl, now);
    }

    /// The value under `key` at time `now`, unless absent or expired.
    pub fn get_at(&self, key: &str, now: u128) -> (r: Option<String>)
        ensures
            match r {
                Some(s) => cached_value(self@, key@, now) == Some(s@),
                None => cached_value(self@, key@, now) is None,
            },
    {
        match self.data.get(key) {
            Some(entry) => {
                let expired = match entry.expires_at {
                    Some(t) => now > t,
                    None => false,
                };
                if expired {
                    None
                } else {
                    Some(entry.value.clone())
                }
            },
            None => None,
        }
    }

    /// The value under `key`, unless absent or expired now.
    pub fn get(&self, key: &str) -> (r: Option<String>)
        ensures
            exists|now: u128|
                #![trigger cached_value(self@, key@, now)]
                match r {
                    Some(s) => cached_value(self@, key@, now) == Some(s@),
                    None => cached_value(self@, key@, now) is None,
                },
    {
        let now = self.now();
        self.get_at(key, now)
    }

    /// Whether `key` has a value that has not expired at time `now`.
    pub fn has_at(&self, key: &str, now: u128) -> (r: bool)
        ensures
            r == cached_value(self@, key@, now) is Some,
    {
        self.get_at(key, now).is_some()
    }

    /// Whether `key` has a value that has not expired now.
    pub fn has(&self, key: &str) -> (r: bool)
        ensures
            exists|now: u128| #![trigger cached_value(self@, key@, now)] r == cached_value(self@, key@, now) is Some,
    {
        let now = self.now();
        self.has_at(key, now)
    }

    /// Removes `key`; returns whether it was present (expired or not).
    pub fn forget(&mut self, key: &str) -> (r: bool)
        ensures
            r == old(self)@.contains_key(key@),
            final(self)@ == old(self)@.remove(key@),
    {
        self.data.remove(key)
    }

    /// Removes every entry.
    pub fn flush(&mut self)
        ensures
            final(self)@ == CacheMap::empty(),
    {
        self.data.clear();
    }

    /// Adds `step` to the counter under `key` and returns the new count; a
    /// new counter starts at 0 and never expires, an existing one keeps its
    /// expiry time.
    pub fn increment(&mut self, key: &str, step: i64) -> (r: i64)
        requires
            i64::MIN <= counter_value(old(self)@, key@) + step <= i64::MAX,
        ensures
            r == counter_value(old(self)@, key@) + step,
            final(self)@ == old(self)@.insert(
                key@,
                (signed_decimal(r as int), counter_expiry(old(self)@, key@)),
            ),
    {
        let (current, expires_at) = match self.data.get(key) {
            Some(entry) => {
                let c: i64 = match parse_i64(entry.value.as_str()) {
                    Some(v) => v,
                    None => 0,
                };
                (c, entry.expires_at)
            },
            None => (0i64, None),
        };
        let new_val: i64 = current + step;
        let mut text = String::new();
        push_signed_decimal(&mut text, new_val);
        assert(text@ =~= signed_decimal(new_val as int));
        self.data.insert(key.to_string(), CacheEntry { value: text, expires_at });
        new_val
    }

    /// Subtracts `step` from the counter under `key` and returns the new
    /// count, as `increment` with `-step`.
    pub fn decrement(&mut self, key: &str, step: i64) -> (r: i64)
        requires
            step != i64::MIN,
            i64::MIN <= counter_value(old(self)@, key@) - step <= i64::MAX,
        ensures
            r == counter_value(old(self)@, key@) - step,
            final(self)@ == old(self)@.insert(
                key@,
                (signed_decimal(r as int), counter_expiry(old(self)@, key@)),
            ),
    {
        self.increment(key, -step)
    }

    /// The count that the counter under `key` holds now (0 when absent or
    /// unreadable), so that a caller can check a step before taking it.
    pub fn counter(&self, key: &str) -> (r: i64)
        ensures
            r == counter_value(self@, key@),
    {
        match self.data.get(key) {
            Some(entry) => match parse_i64(entry.value.as_str()) {
                Some(v) => v,
                None => 0,
            },
            None => 0,
        }
    }

    /// `increment`, when the new count fits in an `i64`; otherwise `None`,
    /// and the store is unchanged.
    pub fn checked_increment(&mut self, key: &str, step: i64) -> (r: Option<i64>)
        ensures
            match r {
                Some(n) => n == counter_value(old(self)@, key@) + step && final(self)@ == old(
                    self,
                )@.insert(key@, (signed_decimal(n as int), counter_expiry(old(self)@, key@))),
                None => !(i64::MIN <= counter_value(old(self)@, key@) + step <= i64::MAX)
                    && final(self)@ == old(self)@,
            },
    {
        let current = self.counter(key);
        match current.checked_add(step) {
            Some(_) => Some(self.increment(key, step)),
            None => None,
        }
    }

    /// `decrement`, when `-step` and the new count fit in an `i64`;
    /// otherwise `None`, and the store is unchanged.
    pub fn checked_decrement(&mut self, key: &str, step: i64) -> (r: Option<i64>)
        ensures
            match r {
                Some(n) => step != i64::MIN && n == counter_value(old(self)@, key@) - step
                    && final(self)@ == old(self)@.insert(
                    key@,
                    (signed_decimal(n as int), counter_expiry(old(self)@, key@)),
                ),
                None => (step == i64::MIN || !(i64::MIN <= counter_value(old(self)@, key@) - step
                    <= i64::MAX)) && final(self)@ == old(self)@,
            },
    {
        if step == i64::MIN {
            return None;
        }
        let current = self.counter(key);
        match current.checked_sub(step) {
            Some(_) => Some(self.decrement(key, step)),
            None => None,
        }
    }

    /// Removes the entries that have expired at time `now`.
    pub fn prune_at(&mut self, now: u128)
        ensures
            final(self)@ == pruned(old(self)@, now),
    {
        let keys = self.data.keys();
        let ghost m = self.data@;
        let ghost ks = texts(keys@);
        let mut i: usize = 0;
        assert(self.data@ =~= Map::new(
            |k: Seq<char>| m.contains_key(k) && (!ks.take(0).contains(k) || !is_expired(m[k], now)),
            |k: Seq<char>| m[k],
        ));
        while i < keys.len()
            invariant
                i <= keys@.len(),
                ks == texts(keys@),
                m == old(self)@,
                forall|k: Seq<char>| #[trigger] m.contains_key(k) <==> ks.contains(k),
                self.data@ == Map::new(
                    |k: Seq<char>|
                        m.contains_key(k) && (!ks.take(i as int).contains(k) || !is_expired(m[k], now)),
                    |k: Seq<char>| m[k],
                ),
            decreases keys@.len() - i,
        {
            let k = keys[i].as_str();
            let ghost before = self.data@;
            let expired = match self.data.get(k) {
                Some(entry) => match entry.expires_at {
                    Some(t) => now > t,
                    None => false,
                },
                None => false,
            };
            if expired {
                self.data.remove(k);
            }
            proof {
                assert(ks[i as int] == k@);
                let t0 = ks.take(i as int);
                let t1 = ks.take(i + 1);
                assert forall|x: Seq<char>| #[trigger] t1.contains(x) <==> (t0.contains(x) || x == k@) by {
                    if t1.contains(x) {
                        let j = choose|j: int| 0 <= j < t1.len() && t1[j] == x;
                        if j < i {
                            assert(t0[j] == x);
                        }
                    }
                    if t0.contains(x) {
                        let j = choose|j: int| 0 <= j < t0.len() && t0[j] == x;
                        assert(t1[j] == x);
                    }
                    if x == k@ {
                        assert(t1[i as int] == x);
                    }
                }
                assert(self.data@ =~= Map::new(
                    |x: Seq<char>|
                        m.contains_key(x) && (!ks.take(i + 1).contains(x) || !is_expired(m[x], now)),
                    |x: Seq<char>| m[x],
                ));
            }
            i += 1;
        }
        proof {
            assert(ks.take(keys@.len() as int) =~= ks);
            assert(self.data@ =~= pruned(m, now));
        }
    }

    /// Removes the entries that have expired now.
    pub fn prune(&mut self)
        ensures
            exists|now: u128| #![trigger pruned(old(self)@, now)] final(self)@ == pruned(old(self)@, now),
    {
        let now = self.now();
        self.prune_at(now);
    }
}

impl Default for MemoryStore {
    fn default() -> (r: Self)
        ensures
            r@ == CacheMap::empty(),
    {
        MemoryStore::new()
    }
}

// ── laws ────────────────────────────────────────────────────────────────────

/// A value written with no lifetime, or read before its lifetime is over,
/// is read back as written.
pub proof fn law_read_after_write(
    m: CacheMap,
    k: Seq<char>,
    v: Seq<char>,
    ttl: Option<u128>,
    written: u128,
    read: u128,
)
    requires
        valid_ttl(ttl),
        written <= MAX_DURATION_NANOS,
        match ttl {
            Some(d) => read <= written + d,
            None => true,
        },
    ensures
        cached_value(m.insert(k, (v, expiry(ttl, written))), k, read) == Some(v),
{
}

/// A value read after its lifetime is over is not found.
pub proof fn law_expired_value_is_gone(
    m: CacheMap,
    k: Seq<char>,
    v: Seq<char>,
    d: u128,
    written: u128,
    read: u128,
)
    requires
        d <= MAX_DURATION_NANOS,
        written <= MAX_DURATION_NANOS,
        read > written + d,
    ensures
        cached_value(m.insert(k, (v, expiry(Some(d), written))), k, read) is None,
{
}

/// Writing one key changes no read of another.
pub proof fn law_write_keeps_other_keys(
    m: CacheMap,
    k: Seq<char>,
    e: (Seq<char>, Option<u128>),
    other: Seq<char>,
    now: u128,
)
    requires
        other != k,
    ensures
        cached_value(m.insert(k, e), other, now) == cached_value(m, other, now),
{
}

/// Once an entry has expired it stays expired: a value that is not there at
/// one time is not there at any later time, and a value that is there at one
/// time was there, the same, at every earlier time.
pub proof fn law_expiry_is_final(m: CacheMap, k: Seq<char>, t: u128, later: u128)
    requires
        t <= later,
    ensures
        cached_value(m, k, t) is None ==> cached_value(m, k, later) is None,
        cached_value(m, k, later) is Some ==> cached_value(m, k, t) == cached_value(m, k, later),
{
}

/// A forgotten key reads as absent.
pub proof fn law_forget_then_read(m: CacheMap, k: Seq<char>, now: u128)
    ensures
        cached_value(m.remove(k), k, now) is None,
{
}

/// After a flush every key reads as absent.
pub proof fn law_flush_then_read(k: Seq<char>, now: u128)
    ensures
        cached_value(CacheMap::empty(), k, now) is None,
{
}

/// The count that an increment stores is the count that the next one
/// starts from, so successive steps add up.
pub proof fn law_counter_accumulates(m: CacheMap, k: Seq<char>, r: i64, e: Option<u128>)
    ensures
        counter_value(m.insert(k, (signed_decimal(r as int), e)), k) == r,
{
    crate::text::lemma_parse_signed_decimal(r);
}

/// Pruning at one time changes no read at that time or later.
pub proof fn law_prune_keeps_reads(m: CacheMap, k: Seq<char>, pruned_at: u128, read: u128)
    requires
        pruned_at <= read,
    ensures
        cached_value(pruned(m, pruned_at), k, read) == cached_value(m, k, read),
{
}

} // verus!
