//! The decisions of a background refresh. Its driver marks the attempt,
//! takes each kind's lock without waiting, fetches that kind's snapshot from
//! the directory service, and hands the outcome here; failures are swallowed
//! so that the foreground work never sees them.
use vstd::prelude::*;
use crate::cache::{lock_views, SqliteCache};
use crate::locks::release_rows;
use crate::replace::{staged_channels, staged_users};
use crate::types::{SlackChannel, SlackUser};

verus! {

/// The lock that serialises writers of the users table.
pub const USERS_LOCK: &'static str = "users_update";

/// The lock that serialises writers of the channels table.
pub const CHANNELS_LOCK: &'static str = "channels_update";

impl SqliteCache {
    /// Ends the users half of a background refresh whose lock this process
    /// holds: a fetched, non-empty snapshot replaces the table (synced at
    /// `now`), anything else leaves it; the lock is released either way.
    /// True iff the table was replaced.
    pub fn finish_user_refresh(&mut self, fetched: Option<Vec<SlackUser>>, now: i64) -> (r: bool)
        requires
            old(self).db.wf(),
        ensures
            final(self).db.wf(),
            lock_views(final(self).db.locks@) == release_rows(lock_views(old(self).db.locks@), USERS_LOCK@, old(self).instance_id@),
            r <==> (fetched matches Some(v) && v@.len() > 0),
            r ==> (fetched matches Some(v) && final(self).db.users@ == staged_users(v@) && final(self).db.meta.last_user_sync == Some(now)),
            !r ==> final(self).db.users == old(self).db.users && final(self).db.meta == old(self).db.meta,
            final(self).db.channels == old(self).db.channels,
            final(self).instance_id == old(self).instance_id,
    {
        let replaced = match fetched {
            Some(users) => {
                if users.len() == 0 {
                    false
                } else {
                    match self.save_users_at(users, now) {
                        Ok(()) => true,
                        Err(_) => false,
                    }
                }
            },
            None => false,
        };
        self.release_lock(USERS_LOCK);
        replaced
    }

    /// Ends the channels half of a background refresh whose lock this
    /// process holds: a fetched, non-empty snapshot replaces the table
    /// (synced at `now`), anything else leaves it; the lock is released either
    /// way. True iff the table was replaced.
    pub fn finish_channel_refresh(&mut self, fetched: Option<Vec<SlackChannel>>, now: i64) -> (r: bool)
        requires
            old(self).db.wf(),
        ensures
            final(self).db.wf(),
            lock_views(final(self).db.locks@) == release_rows(lock_views(old(self).db.locks@), CHANNELS_LOCK@, old(self).instance_id@),
            r <==> (fetched matches Some(v) && v@.len() > 0),
            r ==> (fetched matches Some(v) && final(self).db.channels@ == staged_channels(v@) && final(self).db.meta.last_channel_sync == Some(now)),
            !r ==> final(self).db.channels == old(self).db.channels && final(self).db.meta == old(self).db.meta,
            final(self).db.users == old(self).db.users,
            final(self).instance_id == old(self).instance_id,
    {
        let replaced = match fetched {
            Some(channels) => {
                if channels.len() == 0 {
                    false
                } else {
                    match self.save_channels_at(channels, now) {
                        Ok(()) => true,
                        Err(_) => false,
                    }
                }
            },
            None => false,
        };
        self.release_lock(CHANNELS_LOCK);
        replaced
    }
}

} // verus!
