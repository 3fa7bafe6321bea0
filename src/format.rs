//! The text shown for one field of a user or a channel, the merging of
//! configured and requested columns, and the resolution of a channel given
//! by id or by name.
use vstd::prelude::*;
use crate::cache::SqliteCache;
use crate::config::string_views;
use crate::queries::channel_search_result;
use crate::text::{chars_of, concat, decimal, decimal_string, str_eq, string_of};
use crate::types::{SlackChannel, SlackUser};

verus! {

pub open spec fn or_dash(o: Option<String>) -> Seq<char> {
    match o {
        Some(s) => s@,
        None => "-"@,
    }
}

pub open spec fn nonempty_or_dash(o: Option<String>) -> Seq<char> {
    match o {
        Some(s) => if s@.len() > 0 {
            s@
        } else {
            "-"@
        },
        None => "-"@,
    }
}

/// A user's status: emoji and text, else whichever of them is non-empty,
/// else `none`.
pub open spec fn status_or(text: Option<String>, emoji: Option<String>, none: Seq<char>) -> Seq<char> {
    if text is Some && text->0@.len() > 0 && emoji is Some {
        emoji->0@ + " "@ + text->0@
    } else if text is Some && text->0@.len() > 0 {
        text->0@
    } else if emoji is Some && emoji->0@.len() > 0 {
        emoji->0@
    } else {
        none
    }
}

/// A user's status as shown in a column.
pub open spec fn status_text(text: Option<String>, emoji: Option<String>) -> Seq<char> {
    status_or(text, emoji, "-"@)
}

/// The text shown for field `f` of user `u`; "-" where it has none.
pub open spec fn user_field(u: SlackUser, f: Seq<char>) -> Seq<char> {
    if f == "id"@ {
        u.id@
    } else if f == "name"@ {
        u.name@
    } else if f == "is_admin"@ {
        if u.is_admin { "admin"@ } else { "-"@ }
    } else if f == "is_bot"@ {
        if u.is_bot { "bot"@ } else { "-"@ }
    } else if f == "deleted"@ {
        if u.deleted { "deleted"@ } else { "-"@ }
    } else {
        match u.profile {
            None => "-"@,
            Some(p) => if f == "real_name"@ {
                or_dash(p.real_name)
            } else if f == "display_name"@ {
                nonempty_or_dash(p.display_name)
            } else if f == "email"@ {
                or_dash(p.email)
            } else if f == "status"@ {
                status_text(p.status_text, p.status_emoji)
            } else if f == "status_emoji"@ {
                nonempty_or_dash(p.status_emoji)
            } else if f == "avatar"@ {
                or_dash(p.avatar)
            } else if f == "title"@ {
                nonempty_or_dash(p.title)
            } else if f == "timezone"@ {
                or_dash(p.timezone)
            } else {
                "-"@
            },
        }
    }
}

fn or_dash_exec(o: &Option<String>) -> (r: String)
    ensures
        r@ == or_dash(*o),
{
    match o {
        Some(s) => s.clone(),
        None => String::from_str("-"),
    }
}

fn nonempty_or_dash_exec(o: &Option<String>) -> (r: String)
    ensures
        r@ == nonempty_or_dash(*o),
{
    match o {
        Some(s) => {
            if s.as_str().unicode_len() > 0 {
                s.clone()
            } else {
                String::from_str("-")
            }
        },
        None => String::from_str("-"),
    }
}

/// A user's status, with `none` when there is neither text nor emoji.
pub fn status_string(text: &Option<String>, emoji: &Option<String>, none: &str) -> (r: String)
    ensures
        r@ == status_or(*text, *emoji, none@),
{
    let text_set = match text {
        Some(t) => t.as_str().unicode_len() > 0,
        None => false,
    };
    if text_set {
        match emoji {
            Some(e) => {
                let mut r = concat(e.as_str(), " ");
                match text {
                    Some(t) => r.append(t.as_str()),
                    None => {},
                }
                return r;
            },
            None => {},
        }
        return or_dash_exec(text);
    }
    match emoji {
        Some(e) => {
            if e.as_str().unicode_len() > 0 {
                return e.clone();
            }
        },
        None => {},
    }
    String::from_str(none)
}

/// The text shown for field `field` of `user`.
pub fn get_user_field(user: &SlackUser, field: &str) -> (r: String)
    ensures
        r@ == user_field(*user, field@),
{
    if str_eq(field, "id") {
        return user.id.clone();
    } else if str_eq(field, "name") {
        return user.name.clone();
    } else if str_eq(field, "is_admin") {
        return String::from_str(if user.is_admin { "admin" } else { "-" });
    } else if str_eq(field, "is_bot") {
        return String::from_str(if user.is_bot { "bot" } else { "-" });
    } else if str_eq(field, "deleted") {
        return String::from_str(if user.deleted { "deleted" } else { "-" });
    }
    match &user.profile {
        None => String::from_str("-"),
        Some(p) => {
            if str_eq(field, "real_name") {
                or_dash_exec(&p.real_name)
            } else if str_eq(field, "display_name") {
                nonempty_or_dash_exec(&p.display_name)
            } else if str_eq(field, "email") {
                or_dash_exec(&p.email)
            } else if str_eq(field, "status") {
                status_string(&p.status_text, &p.status_emoji, "-")
            } else if str_eq(field, "status_emoji") {
                nonempty_or_dash_exec(&p.status_emoji)
            } else if str_eq(field, "avatar") {
                or_dash_exec(&p.avatar)
            } else if str_eq(field, "title") {
                nonempty_or_dash_exec(&p.title)
            } else if str_eq(field, "timezone") {
                or_dash_exec(&p.timezone)
            } else {
                String::from_str("-")
            }
        },
    }
}

/// The kind of conversation: direct message, group DM, private or public.
pub open spec fn channel_type(ch: SlackChannel) -> Seq<char> {
    if ch.is_im {
        "DM"@
    } else if ch.is_mpim {
        "Group"@
    } else if ch.is_private {
        "Private"@
    } else {
        "Public"@
    }
}

pub fn get_channel_type(ch: &SlackChannel) -> (r: &'static str)
    ensures
        r@ == channel_type(*ch),
{
    if ch.is_im {
        "DM"
    } else if ch.is_mpim {
        "Group"
    } else if ch.is_private {
        "Private"
    } else {
        "Public"
    }
}

/// The calendar date (UTC, `YYYY-MM-DD`) of a Unix time, when the calendar
/// can hold it.
pub uninterp spec fn utc_date_of(ts: int) -> Option<Seq<char>>;

pub open spec fn opt_view(o: Option<String>) -> Option<Seq<char>> {
    match o {
        Some(s) => Some(s@),
        None => None,
    }
}

/// Relies on chrono's `DateTime::from_timestamp(ts, 0)` and
/// `format("%Y-%m-%d")`: the UTC date of a Unix time, or nothing when it
/// lies outside chrono's calendar.
#[verifier::external_body]
fn utc_date(ts: i64) -> (r: Option<String>)
    ensures
        opt_view(r) == utc_date_of(ts as int),
{
    match chrono::DateTime::from_timestamp(ts, 0) {
        Some(dt) => Some(dt.format("%Y-%m-%d").to_string()),
        None => None,
    }
}

/// A creation time as shown: its date when there is one, else the raw
/// number of seconds.
pub open spec fn created_text(ts: int, date: Option<Seq<char>>) -> Seq<char> {
    match date {
        Some(d) => d,
        None => decimal(ts),
    }
}

/// Renders a creation time from its date as the calendar gives it.
pub fn render_created(ts: i64, date: Option<String>) -> (r: String)
    ensures
        r@ == created_text(ts as int, opt_view(date)),
{
    match date {
        Some(d) => d,
        None => decimal_string(ts),
    }
}

pub open spec fn value_or_dash(v: Option<Seq<char>>) -> Seq<char> {
    match v {
        Some(s) => if s.len() > 0 {
            s
        } else {
            "-"@
        },
        None => "-"@,
    }
}

/// The text shown for field `f` of channel `ch`; "-" where it has none.
pub open spec fn channel_field(ch: SlackChannel, f: Seq<char>) -> Seq<char> {
    if f == "id"@ {
        ch.id@
    } else if f == "name"@ {
        ch.name@
    } else if f == "type"@ {
        channel_type(ch)
    } else if f == "members"@ {
        match ch.num_members {
            Some(n) => decimal(n as int),
            None => "-"@,
        }
    } else if f == "topic"@ {
        value_or_dash(
            match ch.topic {
                Some(t) => Some(t.value@),
                None => None,
            },
        )
    } else if f == "purpose"@ {
        value_or_dash(
            match ch.purpose {
                Some(p) => Some(p.value@),
                None => None,
            },
        )
    } else if f == "created"@ {
        match ch.created {
            Some(ts) => created_text(ts as int, utc_date_of(ts as int)),
            None => "-"@,
        }
    } else if f == "creator"@ {
        or_dash(ch.creator)
    } else if f == "is_member"@ {
        if ch.is_member { "member"@ } else { "-"@ }
    } else if f == "is_archived"@ {
        if ch.is_archived { "archived"@ } else { "-"@ }
    } else if f == "is_private"@ {
        if ch.is_private { "private"@ } else { "public"@ }
    } else {
        "-"@
    }
}

fn value_or_dash_exec(v: &String) -> (r: String)
    ensures
        r@ == value_or_dash(Some(v@)),
{
    if v.as_str().unicode_len() > 0 {
        v.clone()
    } else {
        String::from_str("-")
    }
}

/// The text shown for field `field` of `ch`.
pub fn get_channel_field(ch: &SlackChannel, field: &str) -> (r: String)
    ensures
        r@ == channel_field(*ch, field@),
{
    if str_eq(field, "id") {
        ch.id.clone()
    } else if str_eq(field, "name") {
        ch.name.clone()
    } else if str_eq(field, "type") {
        String::from_str(get_channel_type(ch))
    } else if str_eq(field, "members") {
        match ch.num_members {
            Some(n) => decimal_string(n as i64),
            None => String::from_str("-"),
        }
    } else if str_eq(field, "topic") {
        match &ch.topic {
            Some(t) => value_or_dash_exec(&t.value),
            None => String::from_str("-"),
        }
    } else if str_eq(field, "purpose") {
        match &ch.purpose {
            Some(p) => value_or_dash_exec(&p.value),
            None => String::from_str("-"),
        }
    } else if str_eq(field, "created") {
        match ch.created {
            Some(ts) => render_created(ts, utc_date(ts)),
            None => String::from_str("-"),
        }
    } else if str_eq(field, "creator") {
        or_dash_exec(&ch.creator)
    } else if str_eq(field, "is_member") {
        String::from_str(if ch.is_member { "member" } else { "-" })
    } else if str_eq(field, "is_archived") {
        String::from_str(if ch.is_archived { "archived" } else { "-" })
    } else if str_eq(field, "is_private") {
        String::from_str(if ch.is_private { "private" } else { "public" })
    } else {
        String::from_str("-")
    }
}

/// The configured columns followed by each requested one not already
/// among them, in order.
pub open spec fn merged(fields: Seq<Seq<char>>, extra: Seq<Seq<char>>) -> Seq<Seq<char>>
    decreases extra.len(),
{
    if extra.len() == 0 {
        fields
    } else {
        let m = merged(fields, extra.drop_last());
        if m.contains(extra.last()) {
            m
        } else {
            m.push(extra.last())
        }
    }
}

fn listed(v: &Vec<String>, s: &String) -> (r: bool)
    ensures
        r == string_views(v@).contains(s@),
{
    let mut i: usize = 0;
    while i < v.len()
        invariant
            i <= v@.len(),
            forall|k: int| 0 <= k < i ==> (#[trigger] string_views(v@)[k]) != s@,
        decreases v.len() - i,
    {
        if str_eq(v[i].as_str(), s.as_str()) {
            proof {
                assert(string_views(v@)[i as int] == s@);
            }
            return true;
        }
        i += 1;
    }
    false
}

pub fn merge_fields(defaults: &Vec<String>, expand: Option<&Vec<String>>) -> (r: Vec<String>)
    ensures
        string_views(r@) == merged(
            string_views(defaults@),
            match expand {
                Some(e) => string_views(e@),
                None => Seq::empty(),
            },
        ),
{
    let mut fields: Vec<String> = Vec::new();
    let mut i: usize = 0;
    while i < defaults.len()
        invariant
            i <= defaults@.len(),
            string_views(fields@) == string_views(defaults@).take(i as int),
        decreases defaults.len() - i,
    {
        let ghost before = string_views(fields@);
        fields.push(defaults[i].clone());
        proof {
            assert(string_views(fields@) =~= before.push(defaults@[i as int]@));
            assert(string_views(defaults@).take(i as int + 1) =~= string_views(defaults@).take(i as int).push(
                defaults@[i as int]@,
            ));
        }
        i += 1;
    }
    proof {
        assert(string_views(defaults@).take(defaults@.len() as int) =~= string_views(defaults@));
        assert(merged(string_views(defaults@), Seq::empty()) == string_views(defaults@));
    }
    match expand {
        None => fields,
        Some(extra) => {
            let ghost ev = string_views(extra@);
            let mut j: usize = 0;
            while j < extra.len()
                invariant
                    j <= extra@.len(),
                    ev == string_views(extra@),
                    string_views(fields@) == merged(string_views(defaults@), ev.take(j as int)),
                decreases extra.len() - j,
            {
                proof {
                    assert(ev.take(j as int + 1).drop_last() =~= ev.take(j as int));
                    assert(ev.take(j as int + 1).last() == extra@[j as int]@);
                }
                if !listed(&fields, &extra[j]) {
                    let ghost before = string_views(fields@);
                    fields.push(extra[j].clone());
                    proof {
                        assert(string_views(fields@) =~= before.push(extra@[j as int]@));
                    }
                }
                j += 1;
            }
            proof {
                assert(ev.take(extra@.len() as int) =~= ev);
            }
            fields
        },
    }
}

/// `s` without its leading run of `c`.
pub open spec fn strip_leading(s: Seq<char>, c: char) -> Seq<char>
    decreases s.len(),
{
    if s.len() > 0 && s[0] == c {
        strip_leading(s.drop_first(), c)
    } else {
        s
    }
}

fn strip_leading_exec(s: &Vec<char>, c: char) -> (r: Vec<char>)
    ensures
        r@ == strip_leading(s@, c),
{
    let mut a: usize = 0;
    proof {
        assert(s@.skip(0) =~= s@);
    }
    while a < s.len() && s[a] == c
        invariant
            a <= s@.len(),
            strip_leading(s@, c) == strip_leading(s@.skip(a as int), c),
        decreases s.len() - a,
    {
        proof {
            assert(s@.skip(a as int).drop_first() =~= s@.skip(a as int + 1));
        }
        a += 1;
    }
    let mut r: Vec<char> = Vec::new();
    let mut i: usize = a;
    while i < s.len()
        invariant
            a <= i <= s@.len(),
            r@ == s@.subrange(a as int, i as int),
        decreases s.len() - i,
    {
        r.push(s[i]);
        proof {
            assert(r@ =~= s@.subrange(a as int, i as int + 1));
        }
        i += 1;
    }
    proof {
        assert(s@.subrange(a as int, s@.len() as int) =~= s@.skip(a as int));
    }
    r
}

/// A channel reference given as an id (starting with C, D or G).
pub open spec fn is_channel_id(s: Seq<char>) -> bool {
    s.len() > 0 && (s[0] == 'C' || s[0] == 'D' || s[0] == 'G')
}

/// The name a channel reference names: leading '#'s, then '@'s, dropped.
pub open spec fn reference_name(s: Seq<char>) -> Seq<char> {
    strip_leading(strip_leading(s, '#'), '@')
}

/// The id that a channel reference stands for: the reference itself when it
/// is an id, else the id of the best-ranked unarchived channel that a search
/// for its name finds, if any.
pub fn resolve_channel(input: &str, cache: &SqliteCache) -> (r: Option<String>)
    requires
        cache.db.wf(),
    ensures
        is_channel_id(input@) ==> opt_view(r) == Some(input@),
        !is_channel_id(input@) ==> exists|v: Seq<SlackChannel>|
            #[trigger] channel_search_result(v, cache.db.channels@, reference_name(input@), 1) && opt_view(r) == (if v.len() > 0 {
                Some(v[0].id@)
            } else {
                None::<Seq<char>>
            }),
{
    let s = chars_of(input);
    if s.len() > 0 && (s[0] == 'C' || s[0] == 'D' || s[0] == 'G') {
        return Some(String::from_str(input));
    }
    let name = strip_leading_exec(&strip_leading_exec(&s, '#'), '@');
    let name_str = string_of(&name);
    match cache.search_channels(name_str.as_str(), 1) {
        Ok(v) => {
            proof {
                assert(name_str@ == reference_name(input@));
                assert(channel_search_result(v@, cache.db.channels@, reference_name(input@), 1));
            }
            if v.len() > 0 {
                Some(v[0].id.clone())
            } else {
                None
            }
        },
        Err(_) => None,
    }
}

} // verus!
