//! Limits failed authentication attempts per client within a sliding time window.
//!
//! Times are nanoseconds on a monotonic clock; the caller supplies the current time.

use vstd::prelude::*;
use vstd::hash_map::StringHashMap;

verus! {

/// The length of the window in which failures count, in nanoseconds (60 s).
pub const WINDOW_NANOS: u64 = 60_000_000_000;

/// How many failures within the window block further attempts.
pub const MAX_FAILURES: usize = 10;

/// Time from `t` to `now`; zero when `t` is later than `now`.
pub open spec fn elapsed(t: u64, now: u64) -> int {
    if now >= t {
        now - t
    } else {
        0
    }
}

/// Whether a failure at `t` still counts at `now`.
pub open spec fn is_recent(t: u64, now: u64) -> bool {
    elapsed(t, now) < WINDOW_NANOS
}

/// The failures of `ts` that still count at `now`, in their order.
pub open spec fn recent(ts: Seq<u64>, now: u64) -> Seq<u64>
    decreases ts.len(),
{
    if ts.len() == 0 {
        ts
    } else {
        let r = recent(ts.drop_last(), now);
        if is_recent(ts.last(), now) {
            r.push(ts.last())
        } else {
            r
        }
    }
}

/// The failures recorded for `key`; none when the key is unknown.
pub open spec fn failures_of(m: Map<Seq<char>, Seq<u64>>, key: Seq<char>) -> Seq<u64> {
    if m.contains_key(key) {
        m[key]
    } else {
        Seq::empty()
    }
}

/// Whether a client with the failures `m[key]` may make an attempt at `now`.
pub open spec fn allows(m: Map<Seq<char>, Seq<u64>>, key: Seq<char>, now: u64) -> bool {
    recent(failures_of(m, key), now).len() < MAX_FAILURES
}

/// The failure times recorded for each client.
pub struct LoginAttempts {
    failures: StringHashMap<Vec<u64>>,
}

impl View for LoginAttempts {
    type V = Map<Seq<char>, Seq<u64>>;

    closed spec fn view(&self) -> Map<Seq<char>, Seq<u64>> {
        self.failures@.map_values(|v: Vec<u64>| v@)
    }
}

impl LoginAttempts {
    /// No failures recorded.
    pub fn new() -> (r: LoginAttempts)
        ensures
            r@ == Map::<Seq<char>, Seq<u64>>::empty(),
    {
        let r = LoginAttempts { failures: StringHashMap::new() };
        assert(r@ =~= Map::<Seq<char>, Seq<u64>>::empty());
        r
    }
}

/// A copy of the failures recorded for `key`; with `prune`, only those that still count at `now`.
fn copy_failures(attempts: &LoginAttempts, key: &str, now: u64, prune: bool) -> (r: Vec<u64>)
    ensures
        prune ==> r@ == recent(failures_of(attempts@, key@), now),
        !prune ==> r@ == failures_of(attempts@, key@),
{
    let mut out: Vec<u64> = Vec::new();
    match attempts.failures.get(key) {
        None => {
            assert(out@ =~= recent(Seq::<u64>::empty(), now));
        },
        Some(ts) => {
            let ghost s = ts@;
            assert(s == failures_of(attempts@, key@));
            let n = ts.len();
            let mut i: usize = 0;
            assert(s.take(0) =~= Seq::<u64>::empty());
            while i < n
                invariant
                    n == s.len(),
                    ts@ == s,
                    i <= n,
                    prune ==> out@ == recent(s.take(i as int), now),
                    !prune ==> out@ == s.take(i as int),
                decreases n - i,
            {
                let t = ts[i];
                assert(s.take(i + 1).drop_last() =~= s.take(i as int));
                assert(s.take(i + 1).last() == t);
                if !prune || now < t || now - t < WINDOW_NANOS {
                    out.push(t);
                }
                assert(!prune ==> out@ =~= s.take(i + 1));
                i = i + 1;
            }
            assert(s.take(n as int) =~= s);
        },
    }
    out
}

/// Whether the client `key` may make an attempt at `now`: false once it has
/// `MAX_FAILURES` failures within the last `WINDOW_NANOS`. Failures older than
/// the window are forgotten.
pub fn allow_attempt(attempts: &mut LoginAttempts, key: &str, now: u64) -> (r: bool)
    ensures
        final(attempts)@ == old(attempts)@.insert(key@, recent(failures_of(old(attempts)@, key@), now)),
        r == allows(old(attempts)@, key@, now),
{
    let kept = copy_failures(attempts, key, now, true);
    let allowed = kept.len() < MAX_FAILURES;
    let ghost kept_view = kept@;
    attempts.failures.insert(String::from_str(key), kept);
    assert(attempts@ =~= old(attempts)@.insert(key@, kept_view));
    allowed
}

/// Records a failed attempt of the client `key` at `now`.
pub fn record_failure(attempts: &mut LoginAttempts, key: &str, now: u64)
    ensures
        final(attempts)@ == old(attempts)@.insert(key@, failures_of(old(attempts)@, key@).push(now)),
{
    let mut all = copy_failures(attempts, key, now, false);
    all.push(now);
    let ghost all_view = all@;
    attempts.failures.insert(String::from_str(key), all);
    assert(attempts@ =~= old(attempts)@.insert(key@, all_view));
}

/// Forgets the failures of the client `key`.
pub fn clear_failures(attempts: &mut LoginAttempts, key: &str)
    ensures
        final(attempts)@ == old(attempts)@.remove(key@),
{
    attempts.failures.remove(key);
    assert(attempts@ =~= old(attempts)@.remove(key@));
}

/// The key under which a client's failures are counted: its IP address, or
/// `unknown` when the address is not known.
pub fn client_key(ip: Option<String>) -> (r: String)
    ensures
        r@ == match ip {
            Some(a) => a@,
            None => "unknown"@,
        },
{
    match ip {
        Some(a) => a,
        None => String::from_str("unknown"),
    }
}


/// Pruning never adds failures.
pub proof fn lemma_recent_len(ts: Seq<u64>, now: u64)
    ensures
        recent(ts, now).len() <= ts.len(),
    decreases ts.len(),
{
    if ts.len() > 0 {
        lemma_recent_len(ts.drop_last(), now);
    }
}

/// Pruning keeps exactly the failures that still count, in order.
pub proof fn lemma_recent_members(ts: Seq<u64>, now: u64)
    ensures
        forall|i: int| 0 <= i < recent(ts, now).len() ==> is_recent(#[trigger] recent(ts, now)[i], now),
        (forall|i: int| 0 <= i < ts.len() ==> is_recent(#[trigger] ts[i], now)) ==> recent(ts, now) == ts,
        (forall|i: int| 0 <= i < ts.len() ==> !is_recent(#[trigger] ts[i], now)) ==> recent(ts, now).len() == 0,
    decreases ts.len(),
{
    if ts.len() > 0 {
        let p = ts.drop_last();
        lemma_recent_members(p, now);
        let r = recent(p, now);
        if is_recent(ts.last(), now) {
            let q = r.push(ts.last());
            assert forall|i: int| 0 <= i < q.len() implies is_recent(#[trigger] q[i], now) by {
                if i < r.len() {
                    assert(q[i] == r[i]);
                }
            }
        }
        if forall|i: int| 0 <= i < ts.len() ==> is_recent(#[trigger] ts[i], now) {
            assert(forall|i: int| 0 <= i < p.len() ==> is_recent(#[trigger] p[i], now)) by {
                assert forall|i: int| 0 <= i < p.len() implies is_recent(#[trigger] p[i], now) by {
                    assert(p[i] == ts[i]);
                }
            }
            assert(is_recent(ts[ts.len() - 1], now));
            assert(p.push(ts.last()) =~= ts);
        }
        if forall|i: int| 0 <= i < ts.len() ==> !is_recent(#[trigger] ts[i], now) {
            assert(forall|i: int| 0 <= i < p.len() ==> !is_recent(#[trigger] p[i], now)) by {
                assert forall|i: int| 0 <= i < p.len() implies !is_recent(#[trigger] p[i], now) by {
                    assert(p[i] == ts[i]);
                }
            }
            assert(!is_recent(ts[ts.len() - 1], now));
        }
    }
}

/// Once a client's failures are forgotten, its next attempt is allowed.
pub proof fn lemma_cleared_client_is_allowed(m: Map<Seq<char>, Seq<u64>>, key: Seq<char>, now: u64)
    ensures
        allows(m.remove(key), key, now),
{
    assert(failures_of(m.remove(key), key) == Seq::<u64>::empty());
}

/// A client with fewer than `MAX_FAILURES` failures on record is allowed.
pub proof fn lemma_few_failures_allowed(m: Map<Seq<char>, Seq<u64>>, key: Seq<char>, now: u64)
    requires
        failures_of(m, key).len() < MAX_FAILURES,
    ensures
        allows(m, key, now),
{
    lemma_recent_len(failures_of(m, key), now);
}

/// A client with `MAX_FAILURES` or more failures, all within the window, is refused.
pub proof fn lemma_recent_failures_block(m: Map<Seq<char>, Seq<u64>>, key: Seq<char>, now: u64)
    requires
        failures_of(m, key).len() >= MAX_FAILURES,
        forall|i: int|
            0 <= i < failures_of(m, key).len() ==> is_recent(#[trigger] failures_of(m, key)[i], now),
    ensures
        !allows(m, key, now),
{
    lemma_recent_members(failures_of(m, key), now);
}

/// Failures older than the window no longer count: a client whose failures
/// are all older than the window is allowed, however many there are.
pub proof fn lemma_old_failures_expire(m: Map<Seq<char>, Seq<u64>>, key: Seq<char>, now: u64)
    requires
        forall|i: int|
            0 <= i < failures_of(m, key).len() ==> !is_recent(#[trigger] failures_of(m, key)[i], now),
    ensures
        allows(m, key, now),
{
    lemma_recent_members(failures_of(m, key), now);
}

/// Asking twice at the same moment changes nothing the second time: the
/// record stays as the first call left it, and the answer is the same.
pub proof fn lemma_allow_attempt_idempotent(m: Map<Seq<char>, Seq<u64>>, key: Seq<char>, now: u64)
    ensures
        ({
            let m1 = m.insert(key, recent(failures_of(m, key), now));
            &&& m1.insert(key, recent(failures_of(m1, key), now)) == m1
            &&& allows(m1, key, now) == allows(m, key, now)
        }),
{
    let r = recent(failures_of(m, key), now);
    lemma_recent_members(failures_of(m, key), now);
    lemma_recent_members(r, now);
    let m1 = m.insert(key, r);
    assert(failures_of(m1, key) == r);
    assert(recent(r, now) == r);
    assert(m1.insert(key, r) =~= m1);
}

/// What one client does leaves every other client's record as it was.
pub proof fn lemma_clients_independent(
    m: Map<Seq<char>, Seq<u64>>,
    key: Seq<char>,
    other: Seq<char>,
    v: Seq<u64>,
)
    requires
        key != other,
    ensures
        failures_of(m.insert(key, v), other) == failures_of(m, other),
        failures_of(m.remove(key), other) == failures_of(m, other),
{
}

/// Pruning keeps exactly the failures that happened less than 60 s before
/// `now` (a failure dated after `now` counts as just now), in their order:
/// it is the filter of the failure list by that test.
pub proof fn lemma_recent_is_filter(ts: Seq<u64>, now: u64)
    ensures
        recent(ts, now) == ts.filter(
            |t: u64|
                (if now >= t {
                    now - t
                } else {
                    0
                }) < 60_000_000_000,
        ),
    decreases ts.len(),
{
    let pred = |t: u64|
        (if now >= t {
            now - t
        } else {
            0
        }) < 60_000_000_000;
    reveal_with_fuel(Seq::filter, 1);
    if ts.len() > 0 {
        lemma_recent_is_filter(ts.drop_last(), now);
    }
}

/// Every failure that happened less than 60 s before `now` is kept by the pruning.
pub proof fn lemma_recent_keeps_window(ts: Seq<u64>, now: u64, i: int)
    requires
        0 <= i < ts.len(),
        ts[i] <= now,
        now - ts[i] < 60_000_000_000,
    ensures
        recent(ts, now).contains(ts[i]),
    decreases ts.len(),
{
    if i < ts.len() - 1 {
        lemma_recent_keeps_window(ts.drop_last(), now, i);
        let r = recent(ts.drop_last(), now);
        let j = choose|j: int| 0 <= j < r.len() && r[j] == ts[i];
        if is_recent(ts.last(), now) {
            assert(r.push(ts.last())[j] == ts[i]);
        }
    } else {
        let r = recent(ts.drop_last(), now);
        assert(r.push(ts.last())[r.len() as int] == ts[i]);
    }
}

/// The pruning keeps at least as many failures as there are in a final
/// stretch `ts[k..]` that lies wholly within the last 60 s.
proof fn lemma_recent_len_of_recent_suffix(ts: Seq<u64>, now: u64, k: int)
    requires
        0 <= k <= ts.len(),
        forall|i: int| k <= i < ts.len() ==> ts[i] <= now && now - ts[i] < 60_000_000_000,
    ensures
        recent(ts, now).len() >= ts.len() - k,
    decreases ts.len(),
{
    if ts.len() > k {
        let p = ts.drop_last();
        assert forall|i: int| k <= i < p.len() implies p[i] <= now && now - p[i] < 60_000_000_000 by {
            assert(p[i] == ts[i]);
        }
        lemma_recent_len_of_recent_suffix(p, now, k);
        assert(is_recent(ts[ts.len() - 1], now));
    }
}

/// A client whose last `MAX_FAILURES` (or more) failures all happened within
/// the last 60 s is refused, whatever older failures it also has on record.
pub proof fn lemma_window_failures_block(m: Map<Seq<char>, Seq<u64>>, key: Seq<char>, now: u64, k: int)
    requires
        0 <= k <= failures_of(m, key).len(),
        failures_of(m, key).len() - k >= 10,
        forall|i: int|
            k <= i < failures_of(m, key).len() ==> #[trigger] failures_of(m, key)[i] <= now && now
                - failures_of(m, key)[i] < 60_000_000_000,
    ensures
        !allows(m, key, now),
{
    lemma_recent_len_of_recent_suffix(failures_of(m, key), now, k);
}

} // verus!
