//! The JSON form of users and channels: for each requested field that is
//! known, its name and typed value, in the order requested.
use vstd::prelude::*;
use crate::format::{channel_type, get_channel_type, status_or, status_string};
use crate::text::str_eq;
use crate::types::{copy_opt_string, SlackChannel, SlackUser};

verus! {

/// A field's value in the JSON form.
#[derive(Debug)]
pub enum FieldValue {
    Text(String),
    MaybeText(Option<String>),
    Flag(bool),
    MaybeNumber(Option<i64>),
}

pub open spec fn profile_text(u: SlackUser, which: Seq<char>) -> Option<String> {
    match u.profile {
        None => None,
        Some(p) => if which == "real_name"@ {
            p.real_name
        } else if which == "display_name"@ {
            p.display_name
        } else if which == "email"@ {
            p.email
        } else if which == "status_emoji"@ {
            p.status_emoji
        } else if which == "avatar"@ {
            p.avatar
        } else if which == "title"@ {
            p.title
        } else {
            p.timezone
        },
    }
}

/// The JSON value of field `f` of user `u`, if `f` is a known field.
pub open spec fn user_json_field(u: SlackUser, f: Seq<char>) -> Option<FieldValue> {
    if f == "id"@ {
        Some(FieldValue::Text(u.id))
    } else if f == "name"@ {
        Some(FieldValue::Text(u.name))
    } else if f == "real_name"@ || f == "display_name"@ || f == "email"@ || f == "status_emoji"@ || f
        == "avatar"@ || f == "title"@ || f == "timezone"@ {
        Some(FieldValue::MaybeText(profile_text(u, f)))
    } else if f == "status"@ {
        None
    } else if f == "is_admin"@ {
        Some(FieldValue::Flag(u.is_admin))
    } else if f == "is_bot"@ {
        Some(FieldValue::Flag(u.is_bot))
    } else if f == "deleted"@ {
        Some(FieldValue::Flag(u.deleted))
    } else {
        None
    }
}

/// The status as the JSON form gives it: empty when there is none.
pub open spec fn user_json_status(u: SlackUser) -> Seq<char> {
    match u.profile {
        None => Seq::empty(),
        Some(p) => status_or(p.status_text, p.status_emoji, Seq::empty()),
    }
}

/// The JSON value of field `f` of channel `c`, if `f` is a known field.
pub open spec fn channel_json_field(c: SlackChannel, f: Seq<char>) -> Option<FieldValue> {
    if f == "id"@ {
        Some(FieldValue::Text(c.id))
    } else if f == "name"@ {
        Some(FieldValue::Text(c.name))
    } else if f == "members"@ {
        Some(
            FieldValue::MaybeNumber(
                match c.num_members {
                    Some(n) => Some(n as i64),
                    None => None,
                },
            ),
        )
    } else if f == "topic"@ {
        Some(
            FieldValue::MaybeText(
                match c.topic {
                    Some(t) => Some(t.value),
                    None => None,
                },
            ),
        )
    } else if f == "purpose"@ {
        Some(
            FieldValue::MaybeText(
                match c.purpose {
                    Some(p) => Some(p.value),
                    None => None,
                },
            ),
        )
    } else if f == "created"@ {
        Some(FieldValue::MaybeNumber(c.created))
    } else if f == "creator"@ {
        Some(FieldValue::MaybeText(c.creator))
    } else if f == "is_member"@ {
        Some(FieldValue::Flag(c.is_member))
    } else if f == "is_archived"@ {
        Some(FieldValue::Flag(c.is_archived))
    } else if f == "is_private"@ {
        Some(FieldValue::Flag(c.is_private))
    } else {
        None
    }
}

/// A field of the JSON form as the contracts see it: its name, and its
/// value (text values by their characters).
pub enum FieldView {
    Text(Seq<char>),
    MaybeText(Option<Seq<char>>),
    Flag(bool),
    MaybeNumber(Option<int>),
}

pub open spec fn value_view(v: FieldValue) -> FieldView {
    match v {
        FieldValue::Text(s) => FieldView::Text(s@),
        FieldValue::MaybeText(o) => FieldView::MaybeText(
            match o {
                Some(s) => Some(s@),
                None => None,
            },
        ),
        FieldValue::Flag(b) => FieldView::Flag(b),
        FieldValue::MaybeNumber(o) => FieldView::MaybeNumber(
            match o {
                Some(n) => Some(n as int),
                None => None,
            },
        ),
    }
}

pub open spec fn pair_views(v: Seq<(String, FieldValue)>) -> Seq<(Seq<char>, FieldView)> {
    v.map_values(|p: (String, FieldValue)| (p.0@, value_view(p.1)))
}

/// The JSON form of `u` for the requested fields, in order; unknown fields
/// are left out.
pub open spec fn user_json(u: SlackUser, fs: Seq<Seq<char>>) -> Seq<(Seq<char>, FieldView)>
    decreases fs.len(),
{
    if fs.len() == 0 {
        Seq::empty()
    } else {
        let rest = user_json(u, fs.drop_last());
        let f = fs.last();
        if f == "status"@ {
            rest.push((f, FieldView::Text(user_json_status(u))))
        } else {
            match user_json_field(u, f) {
                Some(v) => rest.push((f, value_view(v))),
                None => rest,
            }
        }
    }
}

/// The JSON form of `c` for the requested fields, in order; unknown fields
/// are left out.
pub open spec fn channel_json(c: SlackChannel, fs: Seq<Seq<char>>) -> Seq<(Seq<char>, FieldView)>
    decreases fs.len(),
{
    if fs.len() == 0 {
        Seq::empty()
    } else {
        let rest = channel_json(c, fs.drop_last());
        let f = fs.last();
        if f == "type"@ {
            rest.push((f, FieldView::Text(channel_type(c))))
        } else {
            match channel_json_field(c, f) {
                Some(v) => rest.push((f, value_view(v))),
                None => rest,
            }
        }
    }
}

pub open spec fn field_names(fs: Seq<String>) -> Seq<Seq<char>> {
    fs.map_values(|s: String| s@)
}

fn profile_text_exec(u: &SlackUser, which: &str) -> (r: Option<String>)
    ensures
        r == profile_text(*u, which@),
{
    match &u.profile {
        None => None,
        Some(p) => {
            if str_eq(which, "real_name") {
                copy_opt_string(&p.real_name)
            } else if str_eq(which, "display_name") {
                copy_opt_string(&p.display_name)
            } else if str_eq(which, "email") {
                copy_opt_string(&p.email)
            } else if str_eq(which, "status_emoji") {
                copy_opt_string(&p.status_emoji)
            } else if str_eq(which, "avatar") {
                copy_opt_string(&p.avatar)
            } else if str_eq(which, "title") {
                copy_opt_string(&p.title)
            } else {
                copy_opt_string(&p.timezone)
            }
        },
    }
}

fn user_json_field_exec(u: &SlackUser, f: &str) -> (r: Option<FieldValue>)
    ensures
        r == user_json_field(*u, f@),
{
    if str_eq(f, "id") {
        Some(FieldValue::Text(u.id.clone()))
    } else if str_eq(f, "name") {
        Some(FieldValue::Text(u.name.clone()))
    } else if str_eq(f, "real_name") || str_eq(f, "display_name") || str_eq(f, "email") || str_eq(
        f,
        "status_emoji",
    ) || str_eq(f, "avatar") || str_eq(f, "title") || str_eq(f, "timezone") {
        Some(FieldValue::MaybeText(profile_text_exec(u, f)))
    } else if str_eq(f, "status") {
        None
    } else if str_eq(f, "is_admin") {
        Some(FieldValue::Flag(u.is_admin))
    } else if str_eq(f, "is_bot") {
        Some(FieldValue::Flag(u.is_bot))
    } else if str_eq(f, "deleted") {
        Some(FieldValue::Flag(u.deleted))
    } else {
        None
    }
}

fn channel_json_field_exec(c: &SlackChannel, f: &str) -> (r: Option<FieldValue>)
    ensures
        r == channel_json_field(*c, f@),
{
    if str_eq(f, "id") {
        Some(FieldValue::Text(c.id.clone()))
    } else if str_eq(f, "name") {
        Some(FieldValue::Text(c.name.clone()))
    } else if str_eq(f, "members") {
        Some(
            FieldValue::MaybeNumber(
                match c.num_members {
                    Some(n) => Some(n as i64),
                    None => None,
                },
            ),
        )
    } else if str_eq(f, "topic") {
        Some(
            FieldValue::MaybeText(
                match &c.topic {
                    Some(t) => Some(t.value.clone()),
                    None => None,
                },
            ),
        )
    } else if str_eq(f, "purpose") {
        Some(
            FieldValue::MaybeText(
                match &c.purpose {
                    Some(p) => Some(p.value.clone()),
                    None => None,
                },
            ),
        )
    } else if str_eq(f, "created") {
        Some(FieldValue::MaybeNumber(c.created))
    } else if str_eq(f, "creator") {
        Some(FieldValue::MaybeText(copy_opt_string(&c.creator)))
    } else if str_eq(f, "is_member") {
        Some(FieldValue::Flag(c.is_member))
    } else if str_eq(f, "is_archived") {
        Some(FieldValue::Flag(c.is_archived))
    } else if str_eq(f, "is_private") {
        Some(FieldValue::Flag(c.is_private))
    } else {
        None
    }
}

/// The JSON form of `user` for the requested `fields`.
pub fn user_json_fields(user: &SlackUser, fields: &Vec<String>) -> (r: Vec<(String, FieldValue)>)
    ensures
        pair_views(r@) == user_json(*user, field_names(fields@)),
{
    let ghost fs = field_names(fields@);
    let mut out: Vec<(String, FieldValue)> = Vec::new();
    let mut i: usize = 0;
    while i < fields.len()
        invariant
            i <= fields@.len(),
            fs == field_names(fields@),
            pair_views(out@) == user_json(*user, fs.take(i as int)),
        decreases fields.len() - i,
    {
        let f = &fields[i];
        let ghost before = pair_views(out@);
        proof {
            assert(fs.take(i as int + 1).drop_last() =~= fs.take(i as int));
            assert(fs.take(i as int + 1).last() == f@);
        }
        if str_eq(f.as_str(), "status") {
            let s = match &user.profile {
                Some(p) => status_string(&p.status_text, &p.status_emoji, ""),
                None => String::new(),
            };
            proof {
                reveal_strlit("");
                assert(""@ =~= Seq::<char>::empty());
                assert(s@ == user_json_status(*user));
            }
            let ghost sv = s@;
            out.push((f.clone(), FieldValue::Text(s)));
            proof {
                assert(pair_views(out@) =~= before.push((f@, FieldView::Text(sv))));
            }
        } else {
            match user_json_field_exec(user, f.as_str()) {
                Some(v) => {
                    let ghost vv = value_view(v);
                    out.push((f.clone(), v));
                    proof {
                        assert(pair_views(out@) =~= before.push((f@, vv)));
                    }
                },
                None => {},
            }
        }
        i += 1;
    }
    proof {
        assert(fs.take(fs.len() as int) =~= fs);
    }
    out
}

/// The JSON form of `ch` for the requested `fields`.
pub fn channel_json_fields(ch: &SlackChannel, fields: &Vec<String>) -> (r: Vec<(String, FieldValue)>)
    ensures
        pair_views(r@) == channel_json(*ch, field_names(fields@)),
{
    let ghost fs = field_names(fields@);
    let mut out: Vec<(String, FieldValue)> = Vec::new();
    let mut i: usize = 0;
    while i < fields.len()
        invariant
            i <= fields@.len(),
            fs == field_names(fields@),
            pair_views(out@) == channel_json(*ch, fs.take(i as int)),
        decreases fields.len() - i,
    {
        let f = &fields[i];
        let ghost before = pair_views(out@);
        proof {
            assert(fs.take(i as int + 1).drop_last() =~= fs.take(i as int));
            assert(fs.take(i as int + 1).last() == f@);
        }
        if str_eq(f.as_str(), "type") {
            let t = String::from_str(get_channel_type(ch));
            out.push((f.clone(), FieldValue::Text(t)));
            proof {
                assert(pair_views(out@) =~= before.push((f@, FieldView::Text(channel_type(*ch)))));
            }
        } else {
            match channel_json_field_exec(ch, f.as_str()) {
                Some(v) => {
                    let ghost vv = value_view(v);
                    out.push((f.clone(), v));
                    proof {
                        assert(pair_views(out@) =~= before.push((f@, vv)));
                    }
                },
                None => {},
            }
        }
        i += 1;
    }
    proof {
        assert(fs.take(fs.len() as int) =~= fs);
    }
    out
}

} // verus!
