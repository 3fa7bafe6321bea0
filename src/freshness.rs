//! The freshness policy: whether the cache is empty, fresh or due for a
//! refresh, and the cooldown that spaces background refresh attempts.
use vstd::prelude::*;
use crate::cache::{unix_now, Metadata, SqliteCache};
use crate::error::{CacheError, CacheResult};

verus! {

/// Nominal time-to-live of cached data, in hours (one week).
pub const CACHE_TTL_HOURS: u64 = 168;

/// Share of the time-to-live after which a refresh is due, in percent.
pub const REFRESH_THRESHOLD_PERCENT: u64 = 10;

/// Minimum spacing of background refresh attempts, in seconds.
pub const MIN_REFRESH_INTERVAL_SECS: i64 = 3600;

/// The cache's state under a freshness policy.
#[derive(Debug, Clone, Copy, PartialEq, Eq, Structural)]
pub enum CacheStatus {
    Empty,
    Fresh,
    NeedsRefresh,
}

/// Seconds after the last sync at which a refresh is due: `percent` of
/// `ttl_hours` hours, i.e. `ttl_hours * percent / 100 * 3600`.
pub open spec fn threshold_secs(ttl_hours: nat, percent: nat) -> nat {
    ttl_hours * percent * 36
}

/// The later of two optional sync times.
pub open spec fn latest(a: Option<i64>, b: Option<i64>) -> Option<i64> {
    match (a, b) {
        (Some(x), Some(y)) => Some(if x >= y { x } else { y }),
        (Some(x), None) => Some(x),
        (None, Some(y)) => Some(y),
        (None, None) => None,
    }
}

/// The last successful sync of either entity kind.
pub open spec fn last_sync(m: Metadata) -> Option<i64> {
    latest(m.last_user_sync, m.last_channel_sync)
}

/// Empty when both tables are; else due for a refresh when no sync was
/// recorded or the last one is at least the threshold old; else fresh.
pub open spec fn cache_status(
    users: nat,
    channels: nat,
    last_sync: Option<i64>,
    ttl_hours: nat,
    percent: nat,
    now: int,
) -> CacheStatus {
    if users == 0 && channels == 0 {
        CacheStatus::Empty
    } else {
        match last_sync {
            None => CacheStatus::NeedsRefresh,
            Some(ts) => if now - ts >= threshold_secs(ttl_hours, percent) {
                CacheStatus::NeedsRefresh
            } else {
                CacheStatus::Fresh
            },
        }
    }
}

/// A refresh was attempted less than the cooldown ago.
pub open spec fn in_cooldown(last_attempt: Option<i64>, now: int) -> bool {
    match last_attempt {
        None => false,
        Some(ts) => now - ts < MIN_REFRESH_INTERVAL_SECS,
    }
}

/// Right after a successful sync (no later than `now`) the cache reads
/// fresh, for any policy with a positive time-to-live and percentage.
pub proof fn lemma_fresh_after_sync(users: nat, channels: nat, synced: i64, ttl_hours: nat, percent: nat, now: i64)
    requires
        users > 0 || channels > 0,
        ttl_hours > 0,
        percent > 0,
        synced >= now,
    ensures
        cache_status(users, channels, Some(synced), ttl_hours, percent, now as int) == CacheStatus::Fresh,
{
    assert(ttl_hours * percent * 36 > 0) by (nonlinear_arith)
        requires
            ttl_hours > 0,
            percent > 0,
    ;
}

fn needs_refresh(last_sync: i64, ttl_hours: u64, percent: u64, now: i64) -> (r: bool)
    ensures
        r == (now - last_sync >= threshold_secs(ttl_hours as nat, percent as nat)),
{
    proof {
        let (a, b) = (ttl_hours as int, percent as int);
        assert(a * b <= 0xffff_ffff_ffff_ffff * 0xffff_ffff_ffff_ffff) by (nonlinear_arith)
            requires
                0 <= a <= 0xffff_ffff_ffff_ffff,
                0 <= b <= 0xffff_ffff_ffff_ffff,
        ;
    }
    let prod: u128 = (ttl_hours as u128) * (percent as u128);
    let age: i128 = (now as i128) - (last_sync as i128);
    proof {
        let t = ttl_hours as nat * percent as nat;
        assert(prod == t);
        assert(threshold_secs(ttl_hours as nat, percent as nat) == t * 36);
    }
    if age < 0 {
        return false;
    }
    let units: u128 = (age as u128) / 36;
    proof {
        let t = prod as int;
        let a = age as int;
        assert(a >= t * 36 <==> a / 36 >= t) by (nonlinear_arith)
            requires
                a >= 0,
                t >= 0,
        ;
    }
    units >= prod
}

fn last_sync_exec(m: &Metadata) -> (r: Option<i64>)
    ensures
        r == last_sync(*m),
{
    match (m.last_user_sync, m.last_channel_sync) {
        (Some(x), Some(y)) => Some(if x >= y { x } else { y }),
        (Some(x), None) => Some(x),
        (None, Some(y)) => Some(y),
        (None, None) => None,
    }
}

fn clock_error() -> (r: CacheError)
    ensures
        r is SystemTimeError,
{
    CacheError::SystemTimeError(String::from_str("the system clock reads before the Unix epoch"))
}

impl SqliteCache {
    /// Row counts of the users and channels tables.
    pub fn get_counts(&self) -> (r: CacheResult<(usize, usize)>)
        ensures
            r matches Ok((u, c)) && u == self.db.users@.len() && c == self.db.channels@.len(),
    {
        Ok((self.db.users.len(), self.db.channels.len()))
    }

    /// Both entity tables are empty.
    pub fn is_cache_empty(&self) -> (r: CacheResult<bool>)
        ensures
            r == Ok::<bool, CacheError>(self.db.users@.len() == 0 && self.db.channels@.len() == 0),
    {
        let (users, channels) = match self.get_counts() {
            Ok(c) => c,
            Err(e) => return Err(e),
        };
        Ok(users == 0 && channels == 0)
    }

    /// The cache's state at clock reading `now` under a time-to-live of
    /// `ttl_hours` and a refresh threshold of `percent` of it.
    pub fn get_cache_status_at(&self, ttl_hours: u64, percent: u64, now: i64) -> (r: CacheResult<CacheStatus>)
        ensures
            r == Ok::<CacheStatus, CacheError>(cache_status(
                self.db.users@.len(),
                self.db.channels@.len(),
                last_sync(self.db.meta),
                ttl_hours as nat,
                percent as nat,
                now as int,
            )),
    {
        let empty = match self.is_cache_empty() {
            Ok(e) => e,
            Err(e) => return Err(e),
        };
        if empty {
            return Ok(CacheStatus::Empty);
        }
        match last_sync_exec(&self.db.meta) {
            None => Ok(CacheStatus::NeedsRefresh),
            Some(ts) => if needs_refresh(ts, ttl_hours, percent, now) {
                Ok(CacheStatus::NeedsRefresh)
            } else {
                Ok(CacheStatus::Fresh)
            },
        }
    }

    /// `get_cache_status_at` at the current time of the system clock. The
    /// clock is read only when the answer depends on it; a clock that reads
    /// before the Unix epoch is reported.
    pub fn get_cache_status(&self, ttl_hours: u64, percent: u64) -> (r: CacheResult<CacheStatus>)
        ensures
            self.db.users@.len() == 0 && self.db.channels@.len() == 0 ==> r == Ok::<CacheStatus, CacheError>(CacheStatus::Empty),
            self.db.users@.len() + self.db.channels@.len() > 0 && last_sync(self.db.meta) is None
                ==> r == Ok::<CacheStatus, CacheError>(CacheStatus::NeedsRefresh),
            r is Ok ==> exists|now: int|
                r == Ok::<CacheStatus, CacheError>(#[trigger] cache_status(
                    self.db.users@.len(),
                    self.db.channels@.len(),
                    last_sync(self.db.meta),
                    ttl_hours as nat,
                    percent as nat,
                    now,
                )),
            r is Err ==> r matches Err(CacheError::SystemTimeError(_)),
    {
        if self.db.users.len() == 0 && self.db.channels.len() == 0 || last_sync_exec(&self.db.meta).is_none() {
            let r = self.get_cache_status_at(ttl_hours, percent, 0);
            proof {
                assert(r == Ok::<CacheStatus, CacheError>(cache_status(
                    self.db.users@.len(),
                    self.db.channels@.len(),
                    last_sync(self.db.meta),
                    ttl_hours as nat,
                    percent as nat,
                    0,
                )));
            }
            return r;
        }
        match unix_now() {
            Some(now) => self.get_cache_status_at(ttl_hours, percent, now),
            None => Err(clock_error()),
        }
    }

    /// A refresh was attempted less than the cooldown before `now`.
    pub fn is_within_refresh_cooldown_at(&self, now: i64) -> (r: CacheResult<bool>)
        ensures
            r == Ok::<bool, CacheError>(in_cooldown(self.db.meta.last_refresh_attempt, now as int)),
    {
        match self.db.meta.last_refresh_attempt {
            None => Ok(false),
            Some(ts) => Ok((now as i128) - (ts as i128) < MIN_REFRESH_INTERVAL_SECS as i128),
        }
    }

    /// `is_within_refresh_cooldown_at` at the current time of the system
    /// clock; the clock is read only when an attempt was recorded.
    pub fn is_within_refresh_cooldown(&self) -> (r: CacheResult<bool>)
        ensures
            self.db.meta.last_refresh_attempt is None ==> r == Ok::<bool, CacheError>(false),
            r is Ok ==> exists|now: int| r == Ok::<bool, CacheError>(#[trigger] in_cooldown(self.db.meta.last_refresh_attempt, now)),
            r is Err ==> r matches Err(CacheError::SystemTimeError(_)),
    {
        if self.db.meta.last_refresh_attempt.is_none() {
            proof {
                assert(!in_cooldown(self.db.meta.last_refresh_attempt, 0));
            }
            return Ok(false);
        }
        match unix_now() {
            Some(now) => self.is_within_refresh_cooldown_at(now),
            None => Err(clock_error()),
        }
    }

    /// Records `now` as the last refresh attempt; nothing else changes.
    pub fn mark_refresh_attempted_at(&mut self, now: i64) -> (r: CacheResult<()>)
        ensures
            r is Ok,
            final(self).db.meta.last_refresh_attempt == Some(now),
            final(self).db.meta.last_user_sync == old(self).db.meta.last_user_sync,
            final(self).db.meta.last_channel_sync == old(self).db.meta.last_channel_sync,
            final(self).db.meta.schema_version == old(self).db.meta.schema_version,
            final(self).db.users == old(self).db.users,
            final(self).db.user_index == old(self).db.user_index,
            final(self).db.channels == old(self).db.channels,
            final(self).db.channel_index == old(self).db.channel_index,
            final(self).db.locks == old(self).db.locks,
            final(self).instance_id == old(self).instance_id,
    {
        self.db.meta.last_refresh_attempt = Some(now);
        Ok(())
    }

    /// `mark_refresh_attempted_at` at the current time of the system clock;
    /// when the clock cannot be read nothing changes.
    pub fn mark_refresh_attempted(&mut self) -> (r: CacheResult<()>)
        ensures
            r is Ok ==> exists|now: i64| final(self).db.meta.last_refresh_attempt == Some(now),
            r is Err ==> *final(self) == *old(self) && r matches Err(CacheError::SystemTimeError(_)),
            final(self).db.meta.last_user_sync == old(self).db.meta.last_user_sync,
            final(self).db.meta.last_channel_sync == old(self).db.meta.last_channel_sync,
            final(self).db.meta.schema_version == old(self).db.meta.schema_version,
            final(self).db.users == old(self).db.users,
            final(self).db.user_index == old(self).db.user_index,
            final(self).db.channels == old(self).db.channels,
            final(self).db.channel_index == old(self).db.channel_index,
            final(self).db.locks == old(self).db.locks,
            final(self).instance_id == old(self).instance_id,
    {
        match unix_now() {
            Some(now) => self.mark_refresh_attempted_at(now),
            None => Err(clock_error()),
        }
    }

    /// A background refresh is worth starting at `now` under the policy
    /// (`ttl_hours`, `percent`): no attempt within the cooldown, and the cache
    /// is due.
    pub fn should_trigger_background_refresh_at(&self, ttl_hours: u64, percent: u64, now: i64) -> (r: bool)
        ensures
            r == (!in_cooldown(self.db.meta.last_refresh_attempt, now as int) && cache_status(
                self.db.users@.len(),
                self.db.channels@.len(),
                last_sync(self.db.meta),
                ttl_hours as nat,
                percent as nat,
                now as int,
            ) == CacheStatus::NeedsRefresh),
    {
        let cooling = match self.is_within_refresh_cooldown_at(now) {
            Ok(b) => b,
            Err(_) => true,
        };
        if cooling {
            return false;
        }
        match self.get_cache_status_at(ttl_hours, percent, now) {
            Ok(CacheStatus::NeedsRefresh) => true,
            _ => false,
        }
    }

    /// `should_trigger_background_refresh_at` under the default policy at the
    /// current time of the system clock. When the clock cannot be read, the
    /// answer is the one that holds at every reading where it does not depend
    /// on the reading, and no refresh otherwise.
    pub fn should_trigger_background_refresh(&self) -> (r: bool)
        ensures
            exists|now: int|
                r == (!in_cooldown(self.db.meta.last_refresh_attempt, now) && #[trigger] cache_status(
                    self.db.users@.len(),
                    self.db.channels@.len(),
                    last_sync(self.db.meta),
                    CACHE_TTL_HOURS as nat,
                    REFRESH_THRESHOLD_PERCENT as nat,
                    now,
                ) == CacheStatus::NeedsRefresh),
            self.db.users@.len() == 0 && self.db.channels@.len() == 0 ==> !r,
    {
        let ghost users = self.db.users@.len();
        let ghost channels = self.db.channels@.len();
        let ghost ls = last_sync(self.db.meta);
        let ghost attempt = self.db.meta.last_refresh_attempt;
        match unix_now() {
            Some(now) => {
                let r = self.should_trigger_background_refresh_at(CACHE_TTL_HOURS, REFRESH_THRESHOLD_PERCENT, now);
                proof {
                    let w = now as int;
                    assert(r == (!in_cooldown(attempt, w) && cache_status(users, channels, ls, CACHE_TTL_HOURS as nat, REFRESH_THRESHOLD_PERCENT as nat, w) == CacheStatus::NeedsRefresh));
                }
                r
            },
            None => {
                let sync = last_sync_exec(&self.db.meta);
                let empty = self.db.users.len() == 0 && self.db.channels.len() == 0;
                let r = match self.db.meta.last_refresh_attempt {
                    Some(_) => false,
                    None => !empty && sync.is_none(),
                };
                proof {
                    let w: int = match attempt {
                        Some(ts) => ts as int,
                        None => match ls {
                            Some(t) => t as int,
                            None => 0,
                        },
                    };
                    assert(threshold_secs(CACHE_TTL_HOURS as nat, REFRESH_THRESHOLD_PERCENT as nat) == 60480);
                    assert(r == (!in_cooldown(attempt, w) && cache_status(users, channels, ls, CACHE_TTL_HOURS as nat, REFRESH_THRESHOLD_PERCENT as nat, w) == CacheStatus::NeedsRefresh));
                }
                r
            },
        }
    }
}

} // verus!
