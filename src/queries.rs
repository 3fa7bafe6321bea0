//! Read operations on the entity tables: ranked search with the full-text
//! fallback, the filtered listings and lookup by id. Reads take no lock.
use vstd::prelude::*;
use crate::cache::{channel_entry, user_entry, SqliteCache};
use crate::error::{CacheError, CacheResult};
use crate::index::{entry_views, IndexView};
use crate::search::{listing_tier, search_entries, search_tiers, top_ranked};
use crate::text::{fts_phrase, process_fts_query, str_eq};
use crate::types::{SlackChannel, SlackUser};

verus! {

/// `v` lists the rows of `rows` at the positions `idx`, in that order.
pub open spec fn picks<T>(v: Seq<T>, rows: Seq<T>, idx: Seq<usize>) -> bool {
    v.len() == idx.len() && forall|k: int| 0 <= k < idx.len() ==> (#[trigger] idx[k]) < rows.len() && v[k] == rows[idx[k] as int]
}

pub open spec fn user_entries(users: Seq<SlackUser>) -> Seq<IndexView> {
    users.map_values(|u: SlackUser| user_entry(u))
}

pub open spec fn channel_entries(channels: Seq<SlackChannel>) -> Seq<IndexView> {
    channels.map_values(|c: SlackChannel| channel_entry(c))
}

/// `v` answers a user search: the users that `search_tiers` selects, first
/// `limit` in rank order; bots only when asked for.
pub open spec fn user_search_result(v: Seq<SlackUser>, users: Seq<SlackUser>, q: Seq<char>, limit: nat, include_bots: bool) -> bool {
    exists|idx: Seq<usize>|
        top_ranked(idx, user_entries(users), search_tiers(user_entries(users), q, include_bots), limit) && #[trigger] picks(v, users, idx)
}

/// `v` answers a channel search: the unarchived channels that
/// `search_tiers` selects, first `limit` in rank order.
pub open spec fn channel_search_result(v: Seq<SlackChannel>, channels: Seq<SlackChannel>, q: Seq<char>, limit: nat) -> bool {
    exists|idx: Seq<usize>|
        top_ranked(idx, channel_entries(channels), search_tiers(channel_entries(channels), q, false), limit) && #[trigger] picks(v, channels, idx)
}

/// `v` lists the visible rows in name order, all of them.
pub open spec fn listing_result<T>(v: Seq<T>, rows: Seq<T>, es: Seq<IndexView>, include_hidden: bool) -> bool {
    exists|idx: Seq<usize>|
        top_ranked(idx, es, es.map_values(|e: IndexView| listing_tier(e, include_hidden)), usize::MAX as nat) && #[trigger] picks(v, rows, idx)
}

fn pick_users(users: &Vec<SlackUser>, idx: &Vec<usize>) -> (r: Vec<SlackUser>)
    requires
        forall|k: int| 0 <= k < idx@.len() ==> (#[trigger] idx@[k]) < users@.len(),
    ensures
        picks(r@, users@, idx@),
{
    let mut r: Vec<SlackUser> = Vec::new();
    let mut k: usize = 0;
    while k < idx.len()
        invariant
            k <= idx@.len(),
            forall|j: int| 0 <= j < idx@.len() ==> (#[trigger] idx@[j]) < users@.len(),
            r@.len() == k,
            forall|j: int| 0 <= j < k ==> r@[j] == users@[#[trigger] idx@[j] as int],
        decreases idx.len() - k,
    {
        let u = users[idx[k]].copy();
        r.push(u);
        k += 1;
    }
    r
}

fn pick_channels(channels: &Vec<SlackChannel>, idx: &Vec<usize>) -> (r: Vec<SlackChannel>)
    requires
        forall|k: int| 0 <= k < idx@.len() ==> (#[trigger] idx@[k]) < channels@.len(),
    ensures
        picks(r@, channels@, idx@),
{
    let mut r: Vec<SlackChannel> = Vec::new();
    let mut k: usize = 0;
    while k < idx.len()
        invariant
            k <= idx@.len(),
            forall|j: int| 0 <= j < idx@.len() ==> (#[trigger] idx@[j]) < channels@.len(),
            r@.len() == k,
            forall|j: int| 0 <= j < k ==> r@[j] == channels@[#[trigger] idx@[j] as int],
        decreases idx.len() - k,
    {
        let c = channels[idx[k]].copy();
        r.push(c);
        k += 1;
    }
    r
}

impl SqliteCache {
    proof fn lemma_user_entries(&self)
        requires
            self.db.wf(),
        ensures
            entry_views(self.db.user_index@) == user_entries(self.db.users@),
    {
        assert(entry_views(self.db.user_index@) =~= user_entries(self.db.users@));
    }

    proof fn lemma_channel_entries(&self)
        requires
            self.db.wf(),
        ensures
            entry_views(self.db.channel_index@) == channel_entries(self.db.channels@),
    {
        assert(entry_views(self.db.channel_index@) =~= channel_entries(self.db.channels@));
    }

    /// Searches the users: a blank query lists them by name; otherwise
    /// case-insensitive substring matches on name, display name, real name and
    /// e-mail, exact matches first; if there are none, the users whose words
    /// hold the query as a phrase. Bots are left out unless `include_bots`.
    pub fn search_users(&self, query: &str, limit: usize, include_bots: bool) -> (r: CacheResult<Vec<SlackUser>>)
        requires
            self.db.wf(),
        ensures
            r matches Ok(v) && user_search_result(v@, self.db.users@, query@, limit as nat, include_bots),
    {
        let idx = search_entries(&self.db.user_index, query, limit, include_bots);
        proof {
            self.lemma_user_entries();
        }
        let v = pick_users(&self.db.users, &idx);
        proof {
            assert(picks(v@, self.db.users@, idx@));
        }
        Ok(v)
    }

    /// Searches the unarchived channels: a blank query lists them by name;
    /// otherwise case-insensitive substring matches on name, topic and
    /// purpose, exact matches of a field first; if there are none, the channels
    /// whose words hold the query as a phrase.
    pub fn search_channels(&self, query: &str, limit: usize) -> (r: CacheResult<Vec<SlackChannel>>)
        requires
            self.db.wf(),
        ensures
            r matches Ok(v) && channel_search_result(v@, self.db.channels@, query@, limit as nat),
    {
        let idx = search_entries(&self.db.channel_index, query, limit, false);
        proof {
            self.lemma_channel_entries();
        }
        let v = pick_channels(&self.db.channels, &idx);
        proof {
            assert(picks(v@, self.db.channels@, idx@));
        }
        Ok(v)
    }

    /// Every user that is not a bot, in name order.
    pub fn get_users(&self) -> (r: CacheResult<Vec<SlackUser>>)
        requires
            self.db.wf(),
        ensures
            r matches Ok(v) && listing_result(v@, self.db.users@, user_entries(self.db.users@), false),
    {
        let idx = search_entries(&self.db.user_index, "", usize::MAX, false);
        proof {
            self.lemma_user_entries();
            reveal_strlit("");
        }
        let v = pick_users(&self.db.users, &idx);
        proof {
            assert(picks(v@, self.db.users@, idx@));
        }
        Ok(v)
    }

    /// Every unarchived channel, in name order.
    pub fn get_channels(&self) -> (r: CacheResult<Vec<SlackChannel>>)
        requires
            self.db.wf(),
        ensures
            r matches Ok(v) && listing_result(v@, self.db.channels@, channel_entries(self.db.channels@), false),
    {
        let idx = search_entries(&self.db.channel_index, "", usize::MAX, false);
        proof {
            self.lemma_channel_entries();
            reveal_strlit("");
        }
        let v = pick_channels(&self.db.channels, &idx);
        proof {
            assert(picks(v@, self.db.channels@, idx@));
        }
        Ok(v)
    }

    /// The user with id `id`, bots included.
    pub fn get_user_by_id(&self, id: &str) -> (r: CacheResult<Option<SlackUser>>)
        ensures
            r matches Ok(o) && (o matches Some(u) ==> exists|i: int| 0 <= i < self.db.users@.len() && self.db.users@[i] == u && u.id@ == id@)
                && (o is None ==> forall|i: int| 0 <= i < self.db.users@.len() ==> (#[trigger] self.db.users@[i]).id@ != id@),
    {
        let mut i: usize = 0;
        while i < self.db.users.len()
            invariant
                i <= self.db.users@.len(),
                forall|k: int| 0 <= k < i ==> (#[trigger] self.db.users@[k]).id@ != id@,
            decreases self.db.users.len() - i,
        {
            if str_eq(self.db.users[i].id.as_str(), id) {
                return Ok(Some(self.db.users[i].copy()));
            }
            i += 1;
        }
        Ok(None)
    }

    /// The channel with id `id`, archived ones included.
    pub fn get_channel_by_id(&self, id: &str) -> (r: CacheResult<Option<SlackChannel>>)
        ensures
            r matches Ok(o) && (o matches Some(c) ==> exists|i: int| 0 <= i < self.db.channels@.len() && self.db.channels@[i] == c && c.id@ == id@)
                && (o is None ==> forall|i: int| 0 <= i < self.db.channels@.len() ==> (#[trigger] self.db.channels@[i]).id@ != id@),
    {
        let mut i: usize = 0;
        while i < self.db.channels.len()
            invariant
                i <= self.db.channels@.len(),
                forall|k: int| 0 <= k < i ==> (#[trigger] self.db.channels@[k]).id@ != id@,
            decreases self.db.channels.len() - i,
        {
            if str_eq(self.db.channels[i].id.as_str(), id) {
                return Ok(Some(self.db.channels[i].copy()));
            }
            i += 1;
        }
        Ok(None)
    }

    /// The phrase the full-text stage would search for `query`.
    pub fn process_fts_query(&self, query: &str) -> (r: String)
        ensures
            r@ == fts_phrase(query@),
    {
        process_fts_query(query)
    }
}

} // verus!
