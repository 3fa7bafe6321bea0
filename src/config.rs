//! Settings of the cache, the output and the connection, with their
//! defaults, and the masking of tokens for display.
use vstd::prelude::*;
use crate::text::{chars_of, string_of};

verus! {

pub const DEFAULT_TTL_HOURS: u64 = 168;
pub const DEFAULT_REFRESH_THRESHOLD_PERCENT: u64 = 10;
pub const DEFAULT_MAX_ATTEMPTS: u32 = 3;
pub const DEFAULT_INITIAL_DELAY_MS: u64 = 1000;
pub const DEFAULT_MAX_DELAY_MS: u64 = 60000;
pub const DEFAULT_TIMEOUT_SECONDS: u64 = 30;
pub const DEFAULT_MAX_IDLE_PER_HOST: i32 = 10;
pub const DEFAULT_POOL_IDLE_TIMEOUT_SECONDS: u64 = 90;
pub const DEFAULT_RATE_LIMIT_PER_MINUTE: u32 = 20;

/// Freshness policy and location of the cache.
pub struct CacheConfig {
    pub ttl_users_hours: u64,
    pub ttl_channels_hours: u64,
    pub refresh_threshold_percent: u64,
    pub data_path: Option<String>,
}

impl Default for CacheConfig {
    fn default() -> (r: Self)
        ensures
            r.ttl_users_hours == 168,
            r.ttl_channels_hours == 168,
            r.refresh_threshold_percent == 10,
            r.data_path is None,
    {
        CacheConfig {
            ttl_users_hours: DEFAULT_TTL_HOURS,
            ttl_channels_hours: DEFAULT_TTL_HOURS,
            refresh_threshold_percent: DEFAULT_REFRESH_THRESHOLD_PERCENT,
            data_path: None,
        }
    }
}

/// The columns printed for users and channels.
pub struct OutputConfig {
    pub users_fields: Vec<String>,
    pub channels_fields: Vec<String>,
}

pub open spec fn string_views(v: Seq<String>) -> Seq<Seq<char>> {
    v.map_values(|s: String| s@)
}

/// Columns shown for users when none are configured.
pub fn default_users_fields() -> (r: Vec<String>)
    ensures
        string_views(r@) == seq!["id"@, "name"@, "real_name"@, "email"@],
{
    let r = vec![
        String::from_str("id"),
        String::from_str("name"),
        String::from_str("real_name"),
        String::from_str("email"),
    ];
    proof {
        assert(string_views(r@) =~= seq!["id"@, "name"@, "real_name"@, "email"@]);
    }
    r
}

/// Columns shown for channels when none are configured.
pub fn default_channels_fields() -> (r: Vec<String>)
    ensures
        string_views(r@) == seq!["id"@, "name"@, "type"@, "members"@],
{
    let r = vec![
        String::from_str("id"),
        String::from_str("name"),
        String::from_str("type"),
        String::from_str("members"),
    ];
    proof {
        assert(string_views(r@) =~= seq!["id"@, "name"@, "type"@, "members"@]);
    }
    r
}

impl Default for OutputConfig {
    fn default() -> (r: Self)
        ensures
            string_views(r.users_fields@) == seq!["id"@, "name"@, "real_name"@, "email"@],
            string_views(r.channels_fields@) == seq!["id"@, "name"@, "type"@, "members"@],
    {
        OutputConfig { users_fields: default_users_fields(), channels_fields: default_channels_fields() }
    }
}

/// Limits of the connection to the directory service.
pub struct ConnectionConfig {
    pub timeout_seconds: u64,
    pub max_idle_per_host: i32,
    pub pool_idle_timeout_seconds: u64,
    pub rate_limit_per_minute: u32,
}

impl Default for ConnectionConfig {
    fn default() -> (r: Self)
        ensures
            r.timeout_seconds == 30,
            r.max_idle_per_host == 10,
            r.pool_idle_timeout_seconds == 90,
            r.rate_limit_per_minute == 20,
    {
        ConnectionConfig {
            timeout_seconds: default_timeout_seconds(),
            max_idle_per_host: default_max_idle_per_host(),
            pool_idle_timeout_seconds: default_pool_idle_timeout_seconds(),
            rate_limit_per_minute: default_rate_limit_per_minute(),
        }
    }
}

pub fn default_ttl_hours() -> (r: u64)
    ensures
        r == 168,
{
    DEFAULT_TTL_HOURS
}

pub fn default_refresh_threshold_percent() -> (r: u64)
    ensures
        r == 10,
{
    DEFAULT_REFRESH_THRESHOLD_PERCENT
}

pub fn default_max_attempts() -> (r: u32)
    ensures
        r == 3,
{
    DEFAULT_MAX_ATTEMPTS
}

pub fn default_initial_delay_ms() -> (r: u64)
    ensures
        r == 1000,
{
    DEFAULT_INITIAL_DELAY_MS
}

pub fn default_max_delay_ms() -> (r: u64)
    ensures
        r == 60000,
{
    DEFAULT_MAX_DELAY_MS
}

pub fn default_timeout_seconds() -> (r: u64)
    ensures
        r == 30,
{
    DEFAULT_TIMEOUT_SECONDS
}

pub fn default_max_idle_per_host() -> (r: i32)
    ensures
        r == 10,
{
    DEFAULT_MAX_IDLE_PER_HOST
}

pub fn default_pool_idle_timeout_seconds() -> (r: u64)
    ensures
        r == 90,
{
    DEFAULT_POOL_IDLE_TIMEOUT_SECONDS
}

pub fn default_rate_limit_per_minute() -> (r: u32)
    ensures
        r == 20,
{
    DEFAULT_RATE_LIMIT_PER_MINUTE
}

/// A token as shown to a person: up to eight characters are all starred,
/// a longer one keeps its first and last four characters around "...".
pub open spec fn masked(t: Seq<char>) -> Seq<char> {
    if t.len() <= 8 {
        Seq::new(t.len(), |i: int| '*')
    } else {
        t.take(4) + seq!['.', '.', '.'] + t.skip(t.len() - 4)
    }
}

pub fn mask_token(token: &str) -> (r: String)
    ensures
        r@ == masked(token@),
{
    let t = chars_of(token);
    let n = t.len();
    let mut out: Vec<char> = Vec::new();
    if n <= 8 {
        let mut i: usize = 0;
        while i < n
            invariant
                i <= n,
                out@ == Seq::new(i as nat, |k: int| '*'),
            decreases n - i,
        {
            out.push('*');
            proof {
                assert(out@ =~= Seq::new((i + 1) as nat, |k: int| '*'));
            }
            i += 1;
        }
    } else {
        let mut i: usize = 0;
        while i < 4
            invariant
                n == t@.len(),
                n > 8,
                i <= 4,
                out@ == t@.take(i as int),
            decreases 4 - i,
        {
            out.push(t[i]);
            proof {
                assert(out@ =~= t@.take(i as int + 1));
            }
            i += 1;
        }
        out.push('.');
        out.push('.');
        out.push('.');
        let mut j: usize = n - 4;
        while j < n
            invariant
                n == t@.len(),
                n > 8,
                n - 4 <= j <= n,
                out@ == t@.take(4) + seq!['.', '.', '.'] + t@.subrange(n - 4, j as int),
            decreases n - j,
        {
            out.push(t[j]);
            proof {
                assert(out@ =~= t@.take(4) + seq!['.', '.', '.'] + t@.subrange(n - 4, j as int + 1));
            }
            j += 1;
        }
        proof {
            assert(t@.subrange(n - 4, n as int) =~= t@.skip(n - 4));
        }
    }
    string_of(&out)
}

} // verus!
