//! The cache's tables and the handle through which one client process uses
//! them. Every entity row carries its indexed projection, rebuilt from the
//! payload whenever the row is written.
use vstd::prelude::*;
use crate::index::{build_entry, entry_of, IndexEntry, IndexView};
use crate::words::views;
use crate::text::chars_of;
use crate::types::{SlackChannel, SlackUser};

verus! {

/// Version of the table layout this library writes.
pub const SCHEMA_VERSION: i32 = 2;

/// The text of an optional field; an absent field has no text.
pub open spec fn opt_text(o: Option<String>) -> Seq<char> {
    match o {
        Some(s) => s@,
        None => Seq::empty(),
    }
}

/// The user's searchable fields: name, display name, real name, e-mail.
pub open spec fn user_fields(u: SlackUser) -> Seq<Seq<char>> {
    match u.profile {
        Some(p) => seq![u.name@, opt_text(p.display_name), opt_text(p.real_name), opt_text(p.email)],
        None => seq![u.name@, Seq::empty(), Seq::empty(), Seq::empty()],
    }
}

/// The indexed projection of a user row: ordered by name, bots filtered by
/// default.
pub open spec fn user_entry(u: SlackUser) -> IndexView {
    entry_of(u.name@, user_fields(u), u.is_bot)
}

/// The channel's searchable fields: name, topic, purpose.
pub open spec fn channel_fields(c: SlackChannel) -> Seq<Seq<char>> {
    seq![
        c.name@,
        match c.topic {
            Some(t) => t.value@,
            None => Seq::empty(),
        },
        match c.purpose {
            Some(p) => p.value@,
            None => Seq::empty(),
        },
    ]
}

/// The indexed projection of a channel row: ordered by name, archived
/// channels filtered.
pub open spec fn channel_entry(c: SlackChannel) -> IndexView {
    entry_of(c.name@, channel_fields(c), c.is_archived)
}

fn opt_chars(o: &Option<String>) -> (r: Vec<char>)
    ensures
        r@ == opt_text(*o),
{
    match o {
        Some(s) => chars_of(s.as_str()),
        None => Vec::new(),
    }
}

/// Builds the indexed projection of a user row from its payload.
pub fn user_index(u: &SlackUser) -> (r: IndexEntry)
    ensures
        r@ == user_entry(*u),
{
    let name = chars_of(u.name.as_str());
    let mut raw: Vec<Vec<char>> = Vec::new();
    raw.push(chars_of(u.name.as_str()));
    match &u.profile {
        Some(p) => {
            raw.push(opt_chars(&p.display_name));
            raw.push(opt_chars(&p.real_name));
            raw.push(opt_chars(&p.email));
        },
        None => {
            raw.push(Vec::new());
            raw.push(Vec::new());
            raw.push(Vec::new());
        },
    }
    proof {
        assert(views(raw@) =~= user_fields(*u));
    }
    build_entry(name, &raw, u.is_bot)
}

/// Builds the indexed projection of a channel row from its payload.
pub fn channel_index(c: &SlackChannel) -> (r: IndexEntry)
    ensures
        r@ == channel_entry(*c),
{
    let name = chars_of(c.name.as_str());
    let mut raw: Vec<Vec<char>> = Vec::new();
    raw.push(chars_of(c.name.as_str()));
    match &c.topic {
        Some(t) => raw.push(chars_of(t.value.as_str())),
        None => raw.push(Vec::new()),
    }
    match &c.purpose {
        Some(p) => raw.push(chars_of(p.value.as_str())),
        None => raw.push(Vec::new()),
    }
    proof {
        assert(views(raw@) =~= channel_fields(*c));
    }
    build_entry(name, &raw, c.is_archived)
}

/// A held lock: the resource's key, the holder's instance id, when it was
/// taken and when it lapses (seconds since the Unix epoch).
pub struct LockRow {
    pub key: String,
    pub holder: String,
    pub acquired_at: i64,
    pub expires_at: i64,
}

/// A lock row as the contracts see it.
pub struct LockView {
    pub key: Seq<char>,
    pub holder: Seq<char>,
    pub acquired_at: int,
    pub expires_at: int,
}

impl View for LockRow {
    type V = LockView;

    open spec fn view(&self) -> LockView {
        LockView {
            key: self.key@,
            holder: self.holder@,
            acquired_at: self.acquired_at as int,
            expires_at: self.expires_at as int,
        }
    }
}

impl LockRow {
    /// A copy equal to `self`, field for field.
    pub fn copy(&self) -> (r: LockRow)
        ensures
            r@ == self@,
    {
        LockRow {
            key: self.key.clone(),
            holder: self.holder.clone(),
            acquired_at: self.acquired_at,
            expires_at: self.expires_at,
        }
    }
}

/// The metadata entries: layout version, the last successful sync of each
/// entity kind and the last background-refresh attempt (Unix seconds).
pub struct Metadata {
    pub schema_version: i32,
    pub last_user_sync: Option<i64>,
    pub last_channel_sync: Option<i64>,
    pub last_refresh_attempt: Option<i64>,
}

/// All tables of one cache file. Each entity table is a list of payloads
/// beside the list of their indexed projections, row for row.
pub struct CacheDb {
    pub users: Vec<SlackUser>,
    pub user_index: Vec<IndexEntry>,
    pub channels: Vec<SlackChannel>,
    pub channel_index: Vec<IndexEntry>,
    pub locks: Vec<LockRow>,
    pub meta: Metadata,
}

/// The lock table as the contracts see it.
pub open spec fn lock_views(ls: Seq<LockRow>) -> Seq<LockView> {
    ls.map_values(|l: LockRow| l@)
}

/// No two users share an id.
pub open spec fn user_ids_unique(us: Seq<SlackUser>) -> bool {
    forall|i: int, j: int| 0 <= i < us.len() && 0 <= j < us.len() && i != j ==> (#[trigger] us[i]).id@ != (#[trigger] us[j]).id@
}

/// No two channels share an id.
pub open spec fn channel_ids_unique(cs: Seq<SlackChannel>) -> bool {
    forall|i: int, j: int| 0 <= i < cs.len() && 0 <= j < cs.len() && i != j ==> (#[trigger] cs[i]).id@ != (#[trigger] cs[j]).id@
}

/// No two lock rows share a key.
pub open spec fn lock_keys_unique(ls: Seq<LockView>) -> bool {
    forall|i: int, j: int| 0 <= i < ls.len() && 0 <= j < ls.len() && i != j ==> (#[trigger] ls[i]).key != (#[trigger] ls[j]).key
}

impl CacheDb {
    /// Every row's projection agrees with its payload, ids and lock keys are
    /// unique.
    pub open spec fn wf(&self) -> bool {
        &&& self.user_index@.len() == self.users@.len()
        &&& forall|i: int| 0 <= i < self.users@.len() ==> (#[trigger] self.user_index@[i])@ == user_entry(self.users@[i])
        &&& self.channel_index@.len() == self.channels@.len()
        &&& forall|i: int| 0 <= i < self.channels@.len() ==> (#[trigger] self.channel_index@[i])@ == channel_entry(self.channels@[i])
        &&& user_ids_unique(self.users@)
        &&& channel_ids_unique(self.channels@)
        &&& lock_keys_unique(lock_views(self.locks@))
    }

    /// A fresh, empty cache.
    pub fn new() -> (r: CacheDb)
        ensures
            r.wf(),
            r.users@.len() == 0,
            r.channels@.len() == 0,
            r.locks@.len() == 0,
            r.meta.schema_version == SCHEMA_VERSION,
            r.meta.last_user_sync is None,
            r.meta.last_channel_sync is None,
            r.meta.last_refresh_attempt is None,
    {
        CacheDb {
            users: Vec::new(),
            user_index: Vec::new(),
            channels: Vec::new(),
            channel_index: Vec::new(),
            locks: Vec::new(),
            meta: Metadata {
                schema_version: SCHEMA_VERSION,
                last_user_sync: None,
                last_channel_sync: None,
                last_refresh_attempt: None,
            },
        }
    }
}

/// One client process's view of a cache: the shared tables and the id that
/// marks this process's locks.
pub struct SqliteCache {
    pub db: CacheDb,
    pub instance_id: String,
}

/// Relies on `SystemTime::now` and `SystemTime::duration_since(UNIX_EPOCH)`:
/// the system clock as whole seconds since the Unix epoch, or nothing when it
/// reads before the epoch or beyond what `i64` holds. Nothing is promised of
/// the value.
#[verifier::external_body]
pub(crate) fn unix_now() -> (r: Option<i64>) {
    match std::time::SystemTime::now().duration_since(std::time::UNIX_EPOCH) {
        Ok(d) => i64::try_from(d.as_secs()).ok(),
        Err(_) => None,
    }
}

impl SqliteCache {
    /// A handle on an empty cache, acting as the process `instance_id`
    /// (which the caller draws, e.g. as a random UUID): no rows, no locks, the
    /// current layout version, no sync and no refresh attempt recorded.
    pub fn new(instance_id: String) -> (r: SqliteCache)
        ensures
            r.db.wf(),
            r.db.users@.len() == 0,
            r.db.channels@.len() == 0,
            r.db.locks@.len() == 0,
            r.db.meta.schema_version == SCHEMA_VERSION,
            r.db.meta.last_user_sync is None,
            r.db.meta.last_channel_sync is None,
            r.db.meta.last_refresh_attempt is None,
            r.instance_id == instance_id,
    {
        SqliteCache { db: CacheDb::new(), instance_id }
    }

    /// A handle on existing tables, acting as the process `instance_id`.
    pub fn attach(db: CacheDb, instance_id: String) -> (r: SqliteCache)
        ensures
            r.db == db,
            r.instance_id == instance_id,
    {
        SqliteCache { db, instance_id }
    }

    /// Gives the tables back, for another handle or for writing out.
    pub fn into_db(self) -> (r: CacheDb)
        ensures
            r == self.db,
    {
        self.db
    }
}

} // verus!
