//! The bulk replace engine: a new snapshot of an entity kind replaces the
//! whole table in one step, and the sync time is recorded with it.
use vstd::prelude::*;
use crate::cache::{
    channel_entry, channel_ids_unique, channel_index, unix_now, user_entry, user_ids_unique,
    user_index, SqliteCache,
};
use crate::error::{CacheError, CacheResult};
use crate::freshness::{cache_status, latest, CacheStatus};
use crate::index::IndexEntry;
use crate::text::str_eq;
use crate::types::{SlackChannel, SlackUser};

verus! {

pub open spec fn user_id_listed(us: Seq<SlackUser>, id: Seq<char>) -> bool {
    exists|i: int| 0 <= i < us.len() && (#[trigger] us[i]).id@ == id
}

pub open spec fn channel_id_listed(cs: Seq<SlackChannel>, id: Seq<char>) -> bool {
    exists|i: int| 0 <= i < cs.len() && (#[trigger] cs[i]).id@ == id
}

/// The users of a batch that stage: each id's first occurrence, in batch
/// order (a later row with a staged id is refused by the key constraint).
pub open spec fn staged_users(batch: Seq<SlackUser>) -> Seq<SlackUser>
    decreases batch.len(),
{
    if batch.len() == 0 {
        batch
    } else {
        let rest = staged_users(batch.drop_last());
        if user_id_listed(rest, batch.last().id@) {
            rest
        } else {
            rest.push(batch.last())
        }
    }
}

/// The channels of a batch that stage: each id's first occurrence, in
/// batch order.
pub open spec fn staged_channels(batch: Seq<SlackChannel>) -> Seq<SlackChannel>
    decreases batch.len(),
{
    if batch.len() == 0 {
        batch
    } else {
        let rest = staged_channels(batch.drop_last());
        if channel_id_listed(rest, batch.last().id@) {
            rest
        } else {
            rest.push(batch.last())
        }
    }
}

/// A replaced table holds rows of the new snapshot only, and every id of the
/// snapshot: no row of the table it replaced survives unless the snapshot
/// brought it again, and nothing of the snapshot is missing.
pub proof fn lemma_staged_users_exact(batch: Seq<SlackUser>)
    ensures
        user_ids_unique(staged_users(batch)),
        forall|i: int| 0 <= i < staged_users(batch).len() ==> exists|j: int| 0 <= j < batch.len() && #[trigger] staged_users(batch)[i] == batch[j],
        forall|j: int| 0 <= j < batch.len() ==> user_id_listed(staged_users(batch), #[trigger] batch[j].id@),
        batch.len() > 0 ==> staged_users(batch).len() > 0,
    decreases batch.len(),
{
    if batch.len() > 0 {
        let d = batch.drop_last();
        lemma_staged_users_exact(d);
        let rest = staged_users(d);
        let s = staged_users(batch);
        assert forall|i: int| 0 <= i < s.len() implies exists|j: int| 0 <= j < batch.len() && #[trigger] s[i] == batch[j] by {
            if i < rest.len() {
                let j = choose|j: int| 0 <= j < d.len() && rest[i] == d[j];
                assert(batch[j] == d[j]);
            } else {
                assert(s[i] == batch[batch.len() - 1]);
            }
        }
        assert forall|j: int| 0 <= j < batch.len() implies user_id_listed(s, #[trigger] batch[j].id@) by {
            if j < d.len() {
                assert(batch[j] == d[j]);
                assert(user_id_listed(rest, d[j].id@));
                let k = choose|k: int| 0 <= k < rest.len() && (#[trigger] rest[k]).id@ == d[j].id@;
                assert(s[k] == rest[k]);
            } else if !user_id_listed(rest, batch.last().id@) {
                assert(s[s.len() - 1] == batch.last());
            }
        }
        if !user_id_listed(rest, batch.last().id@) {
            assert forall|i: int, k: int| 0 <= i < s.len() && 0 <= k < s.len() && i != k implies (#[trigger] s[i]).id@ != (#[trigger] s[k]).id@ by {
                if i < rest.len() && k < rest.len() {
                    assert(s[i] == rest[i] && s[k] == rest[k]);
                } else if i < rest.len() {
                    assert(s[i] == rest[i]);
                } else {
                    assert(s[k] == rest[k]);
                }
            }
        }
    }
}

/// The channel counterpart of `lemma_staged_users_exact`.
pub proof fn lemma_staged_channels_exact(batch: Seq<SlackChannel>)
    ensures
        channel_ids_unique(staged_channels(batch)),
        forall|i: int| 0 <= i < staged_channels(batch).len() ==> exists|j: int| 0 <= j < batch.len() && #[trigger] staged_channels(batch)[i] == batch[j],
        forall|j: int| 0 <= j < batch.len() ==> channel_id_listed(staged_channels(batch), #[trigger] batch[j].id@),
        batch.len() > 0 ==> staged_channels(batch).len() > 0,
    decreases batch.len(),
{
    if batch.len() > 0 {
        let d = batch.drop_last();
        lemma_staged_channels_exact(d);
        let rest = staged_channels(d);
        let s = staged_channels(batch);
        assert forall|i: int| 0 <= i < s.len() implies exists|j: int| 0 <= j < batch.len() && #[trigger] s[i] == batch[j] by {
            if i < rest.len() {
                let j = choose|j: int| 0 <= j < d.len() && rest[i] == d[j];
                assert(batch[j] == d[j]);
            } else {
                assert(s[i] == batch[batch.len() - 1]);
            }
        }
        assert forall|j: int| 0 <= j < batch.len() implies channel_id_listed(s, #[trigger] batch[j].id@) by {
            if j < d.len() {
                assert(batch[j] == d[j]);
                assert(channel_id_listed(rest, d[j].id@));
                let k = choose|k: int| 0 <= k < rest.len() && (#[trigger] rest[k]).id@ == d[j].id@;
                assert(s[k] == rest[k]);
            } else if !channel_id_listed(rest, batch.last().id@) {
                assert(s[s.len() - 1] == batch.last());
            }
        }
        if !channel_id_listed(rest, batch.last().id@) {
            assert forall|i: int, k: int| 0 <= i < s.len() && 0 <= k < s.len() && i != k implies (#[trigger] s[i]).id@ != (#[trigger] s[k]).id@ by {
                if i < rest.len() && k < rest.len() {
                    assert(s[i] == rest[i] && s[k] == rest[k]);
                } else if i < rest.len() {
                    assert(s[i] == rest[i]);
                } else {
                    assert(s[k] == rest[k]);
                }
            }
        }
    }
}

fn user_id_listed_exec(us: &Vec<SlackUser>, id: &str) -> (r: bool)
    ensures
        r == user_id_listed(us@, id@),
{
    let mut i: usize = 0;
    while i < us.len()
        invariant
            i <= us@.len(),
            forall|k: int| 0 <= k < i ==> (#[trigger] us@[k]).id@ != id@,
        decreases us.len() - i,
    {
        if str_eq(us[i].id.as_str(), id) {
            return true;
        }
        i += 1;
    }
    false
}

fn channel_id_listed_exec(cs: &Vec<SlackChannel>, id: &str) -> (r: bool)
    ensures
        r == channel_id_listed(cs@, id@),
{
    let mut i: usize = 0;
    while i < cs.len()
        invariant
            i <= cs@.len(),
            forall|k: int| 0 <= k < i ==> (#[trigger] cs@[k]).id@ != id@,
        decreases cs.len() - i,
    {
        if str_eq(cs[i].id.as_str(), id) {
            return true;
        }
        i += 1;
    }
    false
}

impl SqliteCache {
    /// Replaces the users table with the snapshot `users` and records `now`
    /// as the last user sync. Each id's first occurrence is kept. An empty
    /// snapshot is refused and nothing changes.
    pub fn save_users_at(&mut self, users: Vec<SlackUser>, now: i64) -> (r: CacheResult<()>)
        requires
            old(self).db.wf(),
        ensures
            final(self).db.wf(),
            users@.len() == 0 ==> *final(self) == *old(self) && (r matches Err(CacheError::InvalidInput(m)) && m@
                == "No users to save"@),
            users@.len() > 0 ==> r is Ok && final(self).db.users@ == staged_users(users@)
                && final(self).db.meta.last_user_sync == Some(now)
                && final(self).db.meta.last_channel_sync == old(self).db.meta.last_channel_sync
                && final(self).db.meta.last_refresh_attempt == old(self).db.meta.last_refresh_attempt
                && final(self).db.meta.schema_version == old(self).db.meta.schema_version
                && final(self).db.channels == old(self).db.channels
                && final(self).db.channel_index == old(self).db.channel_index
                && final(self).db.locks == old(self).db.locks
                && final(self).instance_id == old(self).instance_id,
    {
        if users.len() == 0 {
            return Err(CacheError::InvalidInput(String::from_str("No users to save")));
        }
        let mut staged: Vec<SlackUser> = Vec::new();
        let mut staged_index: Vec<IndexEntry> = Vec::new();
        let mut i: usize = 0;
        while i < users.len()
            invariant
                i <= users@.len(),
                staged@ == staged_users(users@.take(i as int)),
                staged_index@.len() == staged@.len(),
                forall|k: int| 0 <= k < staged@.len() ==> (#[trigger] staged_index@[k])@ == user_entry(staged@[k]),
            decreases users.len() - i,
        {
            proof {
                assert(users@.take(i as int + 1).drop_last() =~= users@.take(i as int));
                assert(users@.take(i as int + 1).last() == users@[i as int]);
            }
            if !user_id_listed_exec(&staged, users[i].id.as_str()) {
                let u = users[i].copy();
                let e = user_index(&u);
                staged.push(u);
                staged_index.push(e);
            }
            i += 1;
        }
        proof {
            assert(users@.take(users@.len() as int) =~= users@);
            lemma_staged_users_exact(users@);
        }
        if staged.len() == 0 {
            return Err(CacheError::InvalidInput(String::from_str("Failed to save any users")));
        }
        self.db.users = staged;
        self.db.user_index = staged_index;
        self.db.meta.last_user_sync = Some(now);
        Ok(())
    }

    /// Replaces the channels table with the snapshot `channels` and records
    /// `now` as the last channel sync. Each id's first occurrence is kept. An
    /// empty snapshot is refused and nothing changes.
    pub fn save_channels_at(&mut self, channels: Vec<SlackChannel>, now: i64) -> (r: CacheResult<()>)
        requires
            old(self).db.wf(),
        ensures
            final(self).db.wf(),
            channels@.len() == 0 ==> *final(self) == *old(self) && (r matches Err(CacheError::InvalidInput(m)) && m@
                == "No channels to save"@),
            channels@.len() > 0 ==> r is Ok && final(self).db.channels@ == staged_channels(channels@)
                && final(self).db.meta.last_channel_sync == Some(now)
                && final(self).db.meta.last_user_sync == old(self).db.meta.last_user_sync
                && final(self).db.meta.last_refresh_attempt == old(self).db.meta.last_refresh_attempt
                && final(self).db.meta.schema_version == old(self).db.meta.schema_version
                && final(self).db.users == old(self).db.users
                && final(self).db.user_index == old(self).db.user_index
                && final(self).db.locks == old(self).db.locks
                && final(self).instance_id == old(self).instance_id,
    {
        if channels.len() == 0 {
            return Err(CacheError::InvalidInput(String::from_str("No channels to save")));
        }
        let mut staged: Vec<SlackChannel> = Vec::new();
        let mut staged_index: Vec<IndexEntry> = Vec::new();
        let mut i: usize = 0;
        while i < channels.len()
            invariant
                i <= channels@.len(),
                staged@ == staged_channels(channels@.take(i as int)),
                staged_index@.len() == staged@.len(),
                forall|k: int| 0 <= k < staged@.len() ==> (#[trigger] staged_index@[k])@ == channel_entry(staged@[k]),
            decreases channels.len() - i,
        {
            proof {
                assert(channels@.take(i as int + 1).drop_last() =~= channels@.take(i as int));
                assert(channels@.take(i as int + 1).last() == channels@[i as int]);
            }
            if !channel_id_listed_exec(&staged, channels[i].id.as_str()) {
                let c = channels[i].copy();
                let e = channel_index(&c);
                staged.push(c);
                staged_index.push(e);
            }
            i += 1;
        }
        proof {
            assert(channels@.take(channels@.len() as int) =~= channels@);
            lemma_staged_channels_exact(channels@);
        }
        if staged.len() == 0 {
            return Err(CacheError::InvalidInput(String::from_str("Failed to save any channels")));
        }
        self.db.channels = staged;
        self.db.channel_index = staged_index;
        self.db.meta.last_channel_sync = Some(now);
        Ok(())
    }

    /// `save_users_at` at the current time of the system clock. An empty
    /// snapshot is refused first; a clock that cannot be read is reported;
    /// either way nothing changes.
    pub fn save_users_internal(&mut self, users: Vec<SlackUser>) -> (r: CacheResult<()>)
        requires
            old(self).db.wf(),
        ensures
            final(self).db.wf(),
            users@.len() == 0 ==> *final(self) == *old(self) && (r matches Err(CacheError::InvalidInput(m)) && m@
                == "No users to save"@),
            r is Err ==> *final(self) == *old(self),
            users@.len() > 0 && r is Err ==> r matches Err(CacheError::SystemTimeError(_)),
            r is Ok ==> users@.len() > 0 && final(self).db.users@ == staged_users(users@)
                && (exists|now: i64| final(self).db.meta.last_user_sync == Some(now))
                && final(self).db.meta.last_channel_sync == old(self).db.meta.last_channel_sync
                && final(self).db.meta.last_refresh_attempt == old(self).db.meta.last_refresh_attempt
                && final(self).db.meta.schema_version == old(self).db.meta.schema_version
                && final(self).db.channels == old(self).db.channels
                && final(self).db.channel_index == old(self).db.channel_index
                && final(self).db.locks == old(self).db.locks
                && final(self).instance_id == old(self).instance_id,
    {
        if users.len() == 0 {
            return Err(CacheError::InvalidInput(String::from_str("No users to save")));
        }
        match unix_now() {
            Some(now) => self.save_users_at(users, now),
            None => Err(CacheError::SystemTimeError(String::from_str("the system clock reads before the Unix epoch"))),
        }
    }

    /// `save_channels_at` at the current time of the system clock. An empty
    /// snapshot is refused first; a clock that cannot be read is reported;
    /// either way nothing changes.
    pub fn save_channels_internal(&mut self, channels: Vec<SlackChannel>) -> (r: CacheResult<()>)
        requires
            old(self).db.wf(),
        ensures
            final(self).db.wf(),
            channels@.len() == 0 ==> *final(self) == *old(self) && (r matches Err(CacheError::InvalidInput(m)) && m@
                == "No channels to save"@),
            r is Err ==> *final(self) == *old(self),
            channels@.len() > 0 && r is Err ==> r matches Err(CacheError::SystemTimeError(_)),
            r is Ok ==> channels@.len() > 0 && final(self).db.channels@ == staged_channels(channels@)
                && (exists|now: i64| final(self).db.meta.last_channel_sync == Some(now))
                && final(self).db.meta.last_user_sync == old(self).db.meta.last_user_sync
                && final(self).db.meta.last_refresh_attempt == old(self).db.meta.last_refresh_attempt
                && final(self).db.meta.schema_version == old(self).db.meta.schema_version
                && final(self).db.users == old(self).db.users
                && final(self).db.user_index == old(self).db.user_index
                && final(self).db.locks == old(self).db.locks
                && final(self).instance_id == old(self).instance_id,
    {
        if channels.len() == 0 {
            return Err(CacheError::InvalidInput(String::from_str("No channels to save")));
        }
        match unix_now() {
            Some(now) => self.save_channels_at(channels, now),
            None => Err(CacheError::SystemTimeError(String::from_str("the system clock reads before the Unix epoch"))),
        }
    }
}

/// After a non-empty snapshot of either kind replaces its table at `now`,
/// the table holds exactly its staged rows and the cache reads fresh at
/// `now`, for any policy with a positive time-to-live and percentage; the
/// other kind's sync time, whatever it is, does not matter.
pub proof fn lemma_replace_then_fresh(
    batch: Seq<SlackUser>,
    other_rows: nat,
    other_sync: Option<i64>,
    ttl_hours: nat,
    percent: nat,
    now: i64,
)
    requires
        batch.len() > 0,
        ttl_hours > 0,
        percent > 0,
    ensures
        staged_users(batch).len() > 0,
        forall|j: int| 0 <= j < batch.len() ==> user_id_listed(staged_users(batch), #[trigger] batch[j].id@),
        forall|i: int| 0 <= i < staged_users(batch).len() ==> exists|j: int| 0 <= j < batch.len() && #[trigger] staged_users(batch)[i] == batch[j],
        cache_status(staged_users(batch).len(), other_rows, latest(Some(now), other_sync), ttl_hours, percent, now as int) == CacheStatus::Fresh,
        cache_status(other_rows, staged_users(batch).len(), latest(other_sync, Some(now)), ttl_hours, percent, now as int) == CacheStatus::Fresh,
{
    lemma_staged_users_exact(batch);
    let s1 = latest(Some(now), other_sync)->0;
    let s2 = latest(other_sync, Some(now))->0;
    crate::freshness::lemma_fresh_after_sync(staged_users(batch).len(), other_rows, s1, ttl_hours, percent, now);
    crate::freshness::lemma_fresh_after_sync(other_rows, staged_users(batch).len(), s2, ttl_hours, percent, now);
}

/// Two snapshots written one after the other never mix: after the second,
/// the table holds only rows of the second snapshot, so a row of the first
/// survives only where the second brought the very same row.
pub proof fn lemma_last_snapshot_wins(first: Seq<SlackUser>, second: Seq<SlackUser>)
    requires
        first.len() > 0,
        second.len() > 0,
    ensures
        staged_users(second).len() > 0,
        forall|i: int| 0 <= i < staged_users(second).len() ==> exists|j: int| 0 <= j < second.len() && #[trigger] staged_users(second)[i] == second[j],
        forall|k: int| 0 <= k < staged_users(first).len() && !second.contains(#[trigger] staged_users(first)[k])
            ==> !staged_users(second).contains(staged_users(first)[k]),
{
    lemma_staged_users_exact(second);
    let s2 = staged_users(second);
    assert forall|k: int| 0 <= k < staged_users(first).len() && !second.contains(#[trigger] staged_users(first)[k])
        implies !s2.contains(staged_users(first)[k]) by {
        let x = staged_users(first)[k];
        if s2.contains(x) {
            let i = choose|i: int| 0 <= i < s2.len() && s2[i] == x;
            let j = choose|j: int| 0 <= j < second.len() && s2[i] == second[j];
            assert(second.contains(x));
        }
    }
}

/// The first user of a batch with a given id is the one that stages: after
/// the replace exactly one row has that id, and it is that user; later users
/// with the same id are skipped.
pub proof fn lemma_first_of_id_kept(batch: Seq<SlackUser>, i: int)
    requires
        0 <= i < batch.len(),
        forall|k: int| 0 <= k < i ==> (#[trigger] batch[k]).id@ != batch[i].id@,
    ensures
        staged_users(batch).contains(batch[i]),
        forall|a: int|
            0 <= a < staged_users(batch).len() && (#[trigger] staged_users(batch)[a]).id@ == batch[i].id@
                ==> staged_users(batch)[a] == batch[i],
    decreases batch.len(),
{
    let d = batch.drop_last();
    let s = staged_users(batch);
    lemma_staged_users_exact(batch);
    if i == batch.len() - 1 {
        lemma_staged_users_exact(d);
        let rest = staged_users(d);
        if user_id_listed(rest, batch.last().id@) {
            let a = choose|a: int| 0 <= a < rest.len() && (#[trigger] rest[a]).id@ == batch.last().id@;
            let j = choose|j: int| 0 <= j < d.len() && rest[a] == d[j];
            assert(batch[j] == d[j]);
        }
        assert(s == rest.push(batch[i]));
        assert(s[rest.len() as int] == batch[i]);
    } else {
        assert forall|k: int| 0 <= k < i implies (#[trigger] d[k]).id@ != d[i].id@ by {
            assert(d[k] == batch[k] && d[i] == batch[i]);
        }
        lemma_first_of_id_kept(d, i);
        let rest = staged_users(d);
        assert(d[i] == batch[i]);
        let a = choose|a: int| 0 <= a < rest.len() && rest[a] == batch[i];
        assert(s[a] == rest[a]);
    }
    let b = choose|b: int| 0 <= b < s.len() && s[b] == batch[i];
    assert forall|a: int|
        0 <= a < s.len() && (#[trigger] s[a]).id@ == batch[i].id@ implies s[a] == batch[i] by {
        if a != b {
            assert(s[a].id@ != s[b].id@);
        }
    }
}

} // verus!
