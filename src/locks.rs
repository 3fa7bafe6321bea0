//! Cooperative mutual exclusion over named resources, kept in the cache's
//! own lock table: a lock is a row, taken by inserting it and given back by
//! deleting it; rows that lapsed or grew stale are swept by any process.
use vstd::prelude::*;
use crate::cache::{lock_keys_unique, lock_views, unix_now, LockRow, LockView, SqliteCache};
use crate::error::{CacheError, CacheResult};
use crate::text::str_eq;

verus! {

/// How long a freshly taken lock is valid, in seconds.
pub const LOCK_TIMEOUT_SECS: i64 = 300;

/// Age after which any process may reclaim a lock, in seconds.
pub const STALE_LOCK_THRESHOLD_SECS: i64 = 600;

/// Attempts a blocking acquisition makes before it gives up.
pub const MAX_RETRIES: u32 = 3;

/// First pause between attempts, in milliseconds.
pub const INITIAL_BACKOFF_MS: u64 = 500;

/// Longest pause between attempts, in milliseconds.
pub const MAX_BACKOFF_MS: u64 = 1000;

/// A clock reading far enough from the ends of `i64` for the lock
/// arithmetic.
pub open spec fn clock_ok(now: int) -> bool {
    i64::MIN + STALE_LOCK_THRESHOLD_SECS <= now && now <= i64::MAX - LOCK_TIMEOUT_SECS
}

/// The row has expired or is older than the staleness threshold.
pub open spec fn lock_lapsed(l: LockView, now: int) -> bool {
    l.expires_at < now || l.acquired_at < now - STALE_LOCK_THRESHOLD_SECS
}

/// The lock table with every lapsed row removed.
pub open spec fn sweep(ls: Seq<LockView>, now: int) -> Seq<LockView>
    decreases ls.len(),
{
    if ls.len() == 0 {
        ls
    } else {
        let rest = sweep(ls.drop_last(), now);
        if lock_lapsed(ls.last(), now) {
            rest
        } else {
            rest.push(ls.last())
        }
    }
}

pub open spec fn key_held(ls: Seq<LockView>, key: Seq<char>) -> bool {
    exists|i: int| 0 <= i < ls.len() && (#[trigger] ls[i]).key == key
}

pub open spec fn new_lock(key: Seq<char>, holder: Seq<char>, now: int) -> LockView {
    LockView { key, holder, acquired_at: now, expires_at: now + LOCK_TIMEOUT_SECS }
}

/// The lock table after `holder` tries to take `key` at `now`: lapsed rows are
/// swept, then a row is inserted unless one for `key` remains.
pub open spec fn after_try_acquire(ls: Seq<LockView>, key: Seq<char>, holder: Seq<char>, now: int) -> Seq<LockView> {
    let s = sweep(ls, now);
    if key_held(s, key) {
        s
    } else {
        s.push(new_lock(key, holder, now))
    }
}

/// The lock table without the rows for `key` that `holder` holds.
pub open spec fn release_rows(ls: Seq<LockView>, key: Seq<char>, holder: Seq<char>) -> Seq<LockView>
    decreases ls.len(),
{
    if ls.len() == 0 {
        ls
    } else {
        let rest = release_rows(ls.drop_last(), key, holder);
        let l = ls.last();
        if l.key == key && l.holder == holder {
            rest
        } else {
            rest.push(l)
        }
    }
}

/// The pause before attempt `attempt + 1`: the first pause, doubled after
/// each attempt, never above the maximum.
pub open spec fn backoff_ms(attempt: nat) -> nat
    decreases attempt,
{
    if attempt == 0 {
        INITIAL_BACKOFF_MS as nat
    } else {
        let d = 2 * backoff_ms((attempt - 1) as nat);
        if d < MAX_BACKOFF_MS {
            d
        } else {
            MAX_BACKOFF_MS as nat
        }
    }
}

/// What one attempt of a blocking acquisition tells its driver.
#[derive(Debug, PartialEq, Eq, Structural)]
pub enum AcquireStep {
    /// The lock is now held by this process.
    Acquired,
    /// A live holder has it: wait this many milliseconds, then try again.
    Backoff(u64),
}

proof fn lemma_sweep_sub(ls: Seq<LockView>, now: int)
    ensures
        sweep(ls, now).len() <= ls.len(),
        forall|i: int| 0 <= i < sweep(ls, now).len() ==> exists|j: int| 0 <= j < ls.len() && #[trigger] sweep(ls, now)[i] == ls[j],
        forall|i: int| 0 <= i < sweep(ls, now).len() ==> !lock_lapsed(#[trigger] sweep(ls, now)[i], now),
    decreases ls.len(),
{
    if ls.len() > 0 {
        lemma_sweep_sub(ls.drop_last(), now);
        let rest = sweep(ls.drop_last(), now);
        assert forall|i: int| 0 <= i < sweep(ls, now).len() implies exists|j: int| 0 <= j < ls.len() && #[trigger] sweep(ls, now)[i] == ls[j] by {
            if i < rest.len() {
                let j = choose|j: int| 0 <= j < ls.drop_last().len() && rest[i] == ls.drop_last()[j];
                assert(ls[j] == ls.drop_last()[j]);
            } else {
                assert(sweep(ls, now)[i] == ls[ls.len() - 1]);
            }
        }
    }
}

proof fn lemma_sweep_unique(ls: Seq<LockView>, now: int)
    requires
        lock_keys_unique(ls),
    ensures
        lock_keys_unique(sweep(ls, now)),
    decreases ls.len(),
{
    if ls.len() > 0 {
        let d = ls.drop_last();
        assert(lock_keys_unique(d)) by {
            assert forall|i: int, j: int| 0 <= i < d.len() && 0 <= j < d.len() && i != j implies (#[trigger] d[i]).key != (#[trigger] d[j]).key by {
                assert(d[i] == ls[i] && d[j] == ls[j]);
            }
        }
        lemma_sweep_unique(d, now);
        lemma_sweep_sub(d, now);
        let rest = sweep(d, now);
        if !lock_lapsed(ls.last(), now) {
            let s = rest.push(ls.last());
            assert forall|i: int, j: int| 0 <= i < s.len() && 0 <= j < s.len() && i != j implies (#[trigger] s[i]).key != (#[trigger] s[j]).key by {
                if i < rest.len() && j < rest.len() {
                } else if i < rest.len() {
                    let k = choose|k: int| 0 <= k < d.len() && rest[i] == d[k];
                    assert(d[k] == ls[k]);
                } else {
                    let k = choose|k: int| 0 <= k < d.len() && rest[j] == d[k];
                    assert(d[k] == ls[k]);
                }
            }
        }
    }
}

proof fn lemma_release_sub(ls: Seq<LockView>, key: Seq<char>, holder: Seq<char>)
    ensures
        forall|i: int| 0 <= i < release_rows(ls, key, holder).len() ==> exists|j: int| 0 <= j < ls.len() && #[trigger] release_rows(ls, key, holder)[i] == ls[j],
        forall|i: int| 0 <= i < release_rows(ls, key, holder).len() ==> !((#[trigger] release_rows(ls, key, holder)[i]).key == key && release_rows(ls, key, holder)[i].holder == holder),
    decreases ls.len(),
{
    if ls.len() > 0 {
        lemma_release_sub(ls.drop_last(), key, holder);
        let rest = release_rows(ls.drop_last(), key, holder);
        assert forall|i: int| 0 <= i < release_rows(ls, key, holder).len() implies exists|j: int| 0 <= j < ls.len() && #[trigger] release_rows(ls, key, holder)[i] == ls[j] by {
            if i < rest.len() {
                let j = choose|j: int| 0 <= j < ls.drop_last().len() && rest[i] == ls.drop_last()[j];
                assert(ls[j] == ls.drop_last()[j]);
            } else {
                assert(release_rows(ls, key, holder)[i] == ls[ls.len() - 1]);
            }
        }
    }
}

proof fn lemma_release_unique(ls: Seq<LockView>, key: Seq<char>, holder: Seq<char>)
    requires
        lock_keys_unique(ls),
    ensures
        lock_keys_unique(release_rows(ls, key, holder)),
    decreases ls.len(),
{
    if ls.len() > 0 {
        let d = ls.drop_last();
        assert(lock_keys_unique(d)) by {
            assert forall|i: int, j: int| 0 <= i < d.len() && 0 <= j < d.len() && i != j implies (#[trigger] d[i]).key != (#[trigger] d[j]).key by {
                assert(d[i] == ls[i] && d[j] == ls[j]);
            }
        }
        lemma_release_unique(d, key, holder);
        lemma_release_sub(d, key, holder);
        let rest = release_rows(d, key, holder);
        let l = ls.last();
        if !(l.key == key && l.holder == holder) {
            let s = rest.push(l);
            assert forall|i: int, j: int| 0 <= i < s.len() && 0 <= j < s.len() && i != j implies (#[trigger] s[i]).key != (#[trigger] s[j]).key by {
                if i < rest.len() && j < rest.len() {
                } else if i < rest.len() {
                    let k = choose|k: int| 0 <= k < d.len() && rest[i] == d[k];
                    assert(d[k] == ls[k]);
                } else {
                    let k = choose|k: int| 0 <= k < d.len() && rest[j] == d[k];
                    assert(d[k] == ls[k]);
                }
            }
        }
    }
}

proof fn lemma_after_try_acquire_unique(ls: Seq<LockView>, key: Seq<char>, holder: Seq<char>, now: int)
    requires
        lock_keys_unique(ls),
    ensures
        lock_keys_unique(after_try_acquire(ls, key, holder, now)),
{
    lemma_sweep_unique(ls, now);
    let s = sweep(ls, now);
    if !key_held(s, key) {
        let t = s.push(new_lock(key, holder, now));
        assert forall|i: int, j: int| 0 <= i < t.len() && 0 <= j < t.len() && i != j implies (#[trigger] t[i]).key != (#[trigger] t[j]).key by {
            if i < s.len() && j < s.len() {
                assert(t[i] == s[i] && t[j] == s[j]);
            } else if i < s.len() {
                assert(t[i] == s[i]);
            } else {
                assert(t[j] == s[j]);
            }
        }
    }
}

/// Taking a free key and then trying it from another process fails until the
/// first holder releases it: `holder` gets the lock at `t1`, `other` is
/// refused at any `t2` within the lock's timeout and the row stays
/// `holder`'s, unchanged; once `holder` releases it, `third` (anyone, either
/// of the two included) takes the key at any reading `t3`.
pub proof fn lemma_lock_exclusive_until_release(
    ls: Seq<LockView>,
    key: Seq<char>,
    holder: Seq<char>,
    other: Seq<char>,
    third: Seq<char>,
    t1: int,
    t2: int,
    t3: int,
)
    requires
        lock_keys_unique(ls),
        holder != other,
        clock_ok(t1),
        clock_ok(t2),
        clock_ok(t3),
        t1 <= t2 <= t1 + LOCK_TIMEOUT_SECS,
        !key_held(sweep(ls, t1), key),
    ensures
        ({
            let s1 = after_try_acquire(ls, key, holder, t1);
            let s2 = after_try_acquire(s1, key, other, t2);
            let s3 = release_rows(s2, key, holder);
            &&& s1 == sweep(ls, t1).push(new_lock(key, holder, t1))
            &&& key_held(sweep(s1, t2), key)
            &&& s2 == sweep(s1, t2)
            &&& forall|i: int| 0 <= i < s2.len() && (#[trigger] s2[i]).key == key ==> s2[i] == new_lock(key, holder, t1)
            &&& !key_held(sweep(s3, t3), key)
            &&& after_try_acquire(s3, key, third, t3) == sweep(s3, t3).push(new_lock(key, third, t3))
        }),
{
    let s0 = sweep(ls, t1);
    let x = new_lock(key, holder, t1);
    let s1 = s0.push(x);
    assert(s1.drop_last() =~= s0);
    assert(!lock_lapsed(x, t2));
    assert(sweep(s1, t2) == sweep(s0, t2).push(x));
    let s2 = sweep(s1, t2);
    assert(s2[s2.len() - 1] == x);
    assert(key_held(s2, key));
    lemma_sweep_sub(s0, t2);
    lemma_sweep_sub(ls, t1);
    // every row for `key` left at t2 is the one `holder` took
    assert forall|i: int| 0 <= i < s2.len() && (#[trigger] s2[i]).key == key implies s2[i] == x by {
        if i < s2.len() - 1 {
            let j = choose|j: int| 0 <= j < s0.len() && sweep(s0, t2)[i] == s0[j];
            assert(sweep(s0, t2)[i] == s2[i]);
            assert(s0[j].key == key);
        }
    }
    let s3 = release_rows(s2, key, holder);
    lemma_release_sub(s2, key, holder);
    lemma_sweep_sub(s3, t3);
    if key_held(sweep(s3, t3), key) {
        let i = choose|i: int| 0 <= i < sweep(s3, t3).len() && (#[trigger] sweep(s3, t3)[i]).key == key;
        let j = choose|j: int| 0 <= j < s3.len() && sweep(s3, t3)[i] == s3[j];
        let k = choose|k: int| 0 <= k < s2.len() && s3[j] == s2[k];
        assert(s2[k].key == key);
    }
}

/// A lock taken longer ago than the staleness threshold does not stop another
/// process: its next attempt finds the key free and takes it, with no
/// release by the old holder.
pub proof fn lemma_stale_lock_reclaimed(
    ls: Seq<LockView>,
    key: Seq<char>,
    other: Seq<char>,
    stale: int,
    now: int,
)
    requires
        lock_keys_unique(ls),
        clock_ok(now),
        0 <= stale < ls.len(),
        ls[stale].key == key,
        ls[stale].acquired_at < now - STALE_LOCK_THRESHOLD_SECS,
    ensures
        !key_held(sweep(ls, now), key),
        after_try_acquire(ls, key, other, now) == sweep(ls, now).push(new_lock(key, other, now)),
{
    lemma_sweep_sub(ls, now);
    if key_held(sweep(ls, now), key) {
        let i = choose|i: int| 0 <= i < sweep(ls, now).len() && (#[trigger] sweep(ls, now)[i]).key == key;
        let j = choose|j: int| 0 <= j < ls.len() && sweep(ls, now)[i] == ls[j];
        if j != stale {
            assert(ls[j].key != ls[stale].key);
        }
    }
}

fn key_held_exec(ls: &Vec<LockRow>, key: &str) -> (r: bool)
    ensures
        r == key_held(lock_views(ls@), key@),
{
    let mut i: usize = 0;
    while i < ls.len()
        invariant
            i <= ls@.len(),
            forall|k: int| 0 <= k < i ==> (#[trigger] lock_views(ls@)[k]).key != key@,
        decreases ls.len() - i,
    {
        if str_eq(ls[i].key.as_str(), key) {
            proof {
                assert(lock_views(ls@)[i as int].key == key@);
            }
            return true;
        }
        proof {
            assert(lock_views(ls@)[i as int] == ls@[i as int]@);
        }
        i += 1;
    }
    false
}

fn is_lapsed(l: &LockRow, now: i64) -> (r: bool)
    requires
        clock_ok(now as int),
    ensures
        r == lock_lapsed(l@, now as int),
{
    l.expires_at < now || l.acquired_at < now - STALE_LOCK_THRESHOLD_SECS
}

fn sweep_rows(ls: &Vec<LockRow>, now: i64) -> (r: Vec<LockRow>)
    requires
        clock_ok(now as int),
    ensures
        lock_views(r@) == sweep(lock_views(ls@), now as int),
{
    let mut r: Vec<LockRow> = Vec::new();
    let mut i: usize = 0;
    while i < ls.len()
        invariant
            clock_ok(now as int),
            i <= ls@.len(),
            lock_views(r@) == sweep(lock_views(ls@).take(i as int), now as int),
        decreases ls.len() - i,
    {
        let ghost before = lock_views(r@);
        proof {
            assert(lock_views(ls@).take(i as int + 1).drop_last() =~= lock_views(ls@).take(i as int));
            assert(lock_views(ls@).take(i as int + 1).last() == ls@[i as int]@);
        }
        if !is_lapsed(&ls[i], now) {
            let c = ls[i].copy();
            r.push(c);
            proof {
                assert(lock_views(r@) =~= before.push(ls@[i as int]@));
            }
        }
        i += 1;
    }
    proof {
        assert(lock_views(ls@).take(ls@.len() as int) =~= lock_views(ls@));
    }
    r
}

fn release_rows_exec(ls: &Vec<LockRow>, key: &str, holder: &str) -> (r: Vec<LockRow>)
    ensures
        lock_views(r@) == release_rows(lock_views(ls@), key@, holder@),
{
    let mut r: Vec<LockRow> = Vec::new();
    let mut i: usize = 0;
    while i < ls.len()
        invariant
            i <= ls@.len(),
            lock_views(r@) == release_rows(lock_views(ls@).take(i as int), key@, holder@),
        decreases ls.len() - i,
    {
        let ghost before = lock_views(r@);
        proof {
            assert(lock_views(ls@).take(i as int + 1).drop_last() =~= lock_views(ls@).take(i as int));
            assert(lock_views(ls@).take(i as int + 1).last() == ls@[i as int]@);
        }
        if !(str_eq(ls[i].key.as_str(), key) && str_eq(ls[i].holder.as_str(), holder)) {
            let c = ls[i].copy();
            r.push(c);
            proof {
                assert(lock_views(r@) =~= before.push(ls@[i as int]@));
            }
        }
        i += 1;
    }
    proof {
        assert(lock_views(ls@).take(ls@.len() as int) =~= lock_views(ls@));
    }
    r
}

/// The pause after a refused attempt `attempt` (counting from 0).
pub fn backoff_delay_ms(attempt: u32) -> (r: u64)
    ensures
        r as nat == backoff_ms(attempt as nat),
{
    let mut d: u64 = INITIAL_BACKOFF_MS;
    let mut a: u32 = 0;
    while a < attempt
        invariant
            a <= attempt,
            d as nat == backoff_ms(a as nat),
            d <= MAX_BACKOFF_MS,
        decreases attempt - a,
    {
        let twice = 2 * d;
        d = if twice < MAX_BACKOFF_MS {
            twice
        } else {
            MAX_BACKOFF_MS
        };
        a += 1;
    }
    d
}

impl SqliteCache {
    /// One non-blocking attempt at `key` at clock reading `now`: sweeps the
    /// rows that expired or grew stale, then inserts this process's row unless
    /// a row for `key` remains. True iff the row was inserted.
    pub fn try_acquire_lock_at(&mut self, key: &str, now: i64) -> (r: bool)
        requires
            old(self).db.wf(),
            clock_ok(now as int),
        ensures
            final(self).db.wf(),
            lock_views(final(self).db.locks@) == after_try_acquire(lock_views(old(self).db.locks@), key@, old(self).instance_id@, now as int),
            r == !key_held(sweep(lock_views(old(self).db.locks@), now as int), key@),
            final(self).db.users == old(self).db.users,
            final(self).db.channels == old(self).db.channels,
            final(self).db.meta == old(self).db.meta,
            final(self).instance_id == old(self).instance_id,
    {
        proof {
            lemma_after_try_acquire_unique(lock_views(self.db.locks@), key@, self.instance_id@, now as int);
        }
        let mut swept = sweep_rows(&self.db.locks, now);
        if key_held_exec(&swept, key) {
            self.db.locks = swept;
            return false;
        }
        let row = LockRow {
            key: key.to_owned(),
            holder: self.instance_id.clone(),
            acquired_at: now,
            expires_at: now + LOCK_TIMEOUT_SECS,
        };
        let ghost sv = lock_views(swept@);
        swept.push(row);
        proof {
            assert(lock_views(swept@) =~= sv.push(new_lock(key@, self.instance_id@, now as int)));
        }
        self.db.locks = swept;
        true
    }

    /// One attempt of a blocking acquisition (`attempt` counts from 0). The
    /// sweep has already reclaimed any holder older than the staleness
    /// threshold, so a refusal means a live holder: the driver waits the
    /// returned pause and tries again, until the last attempt is refused.
    pub fn acquire_attempt_at(&mut self, key: &str, attempt: u32, now: i64) -> (r: CacheResult<AcquireStep>)
        requires
            old(self).db.wf(),
            clock_ok(now as int),
            attempt < MAX_RETRIES,
        ensures
            final(self).db.wf(),
            lock_views(final(self).db.locks@) == after_try_acquire(lock_views(old(self).db.locks@), key@, old(self).instance_id@, now as int),
            !key_held(sweep(lock_views(old(self).db.locks@), now as int), key@) ==> r == Ok::<AcquireStep, CacheError>(AcquireStep::Acquired),
            key_held(sweep(lock_views(old(self).db.locks@), now as int), key@) && attempt + 1 < MAX_RETRIES
                ==> r == Ok::<AcquireStep, CacheError>(AcquireStep::Backoff(backoff_ms(attempt as nat) as u64)),
            key_held(sweep(lock_views(old(self).db.locks@), now as int), key@) && attempt + 1 >= MAX_RETRIES ==> (r matches Err(
                CacheError::LockAcquisitionFailed { key: k, attempts },
            ) && k@ == key@ && attempts == MAX_RETRIES),
            final(self).db.users == old(self).db.users,
            final(self).db.channels == old(self).db.channels,
            final(self).db.meta == old(self).db.meta,
            final(self).instance_id == old(self).instance_id,
    {
        if self.try_acquire_lock_at(key, now) {
            return Ok(AcquireStep::Acquired);
        }
        if attempt + 1 < MAX_RETRIES {
            Ok(AcquireStep::Backoff(backoff_delay_ms(attempt)))
        } else {
            Err(CacheError::LockAcquisitionFailed { key: key.to_owned(), attempts: MAX_RETRIES as usize })
        }
    }

    /// Deletes this process's row for `key`, and no other process's row.
    pub fn release_lock(&mut self, key: &str)
        requires
            old(self).db.wf(),
        ensures
            final(self).db.wf(),
            lock_views(final(self).db.locks@) == release_rows(lock_views(old(self).db.locks@), key@, old(self).instance_id@),
            final(self).db.users == old(self).db.users,
            final(self).db.channels == old(self).db.channels,
            final(self).db.meta == old(self).db.meta,
            final(self).instance_id == old(self).instance_id,
    {
        proof {
            lemma_release_unique(lock_views(self.db.locks@), key@, self.instance_id@);
        }
        let rows = release_rows_exec(&self.db.locks, key, self.instance_id.as_str());
        self.db.locks = rows;
    }

    /// `try_acquire_lock_at` at the current time of the system clock; a
    /// reading too close to the ends of the clock's range is reported and
    /// nothing changes.
    pub fn try_acquire_lock(&mut self, key: &str) -> (r: CacheResult<bool>)
        requires
            old(self).db.wf(),
        ensures
            final(self).db.wf(),
            r is Err ==> *final(self) == *old(self),
            r matches Ok(b) ==> exists|now: int|
                clock_ok(now) && #[trigger] after_try_acquire(lock_views(old(self).db.locks@), key@, old(self).instance_id@, now)
                    == lock_views(final(self).db.locks@) && b == !key_held(sweep(lock_views(old(self).db.locks@), now), key@),
            final(self).db.users == old(self).db.users,
            final(self).db.channels == old(self).db.channels,
            final(self).instance_id == old(self).instance_id,
    {
        let now = match unix_now() {
            Some(t) => t,
            None => {
                return Err(CacheError::SystemTimeError(String::from_str("the system clock reads before the Unix epoch")));
            },
        };
        if now < i64::MIN + STALE_LOCK_THRESHOLD_SECS || now > i64::MAX - LOCK_TIMEOUT_SECS {
            return Err(CacheError::SystemTimeError(String::from_str("clock reading out of range")));
        }
        let b = self.try_acquire_lock_at(key, now);
        proof {
            assert(after_try_acquire(lock_views(old(self).db.locks@), key@, old(self).instance_id@, now as int)
                == lock_views(self.db.locks@));
        }
        Ok(b)
    }
}

} // verus!
