//! Decisions taken around calls to the directory service: which token to
//! send, how a message search is phrased, and how custom emoji are read and
//! searched.
use vstd::prelude::*;
use crate::text::{chars_of, contains_run, contains_run_exec, string_of};
use crate::types::{copy_opt_string, CustomEmoji};

verus! {

/// The token to send: the user token when preferred and present, else the
/// bot token, else the user token.
pub open spec fn token_choice(prefer_user: bool, bot: Option<String>, user: Option<String>) -> Option<String> {
    if prefer_user && user is Some {
        user
    } else if bot is Some {
        bot
    } else {
        user
    }
}

pub fn choose_token(prefer_user: bool, bot: &Option<String>, user: &Option<String>) -> (r: Option<String>)
    ensures
        r == token_choice(prefer_user, *bot, *user),
{
    if prefer_user && user.is_some() {
        copy_opt_string(user)
    } else if bot.is_some() {
        copy_opt_string(bot)
    } else {
        copy_opt_string(user)
    }
}

/// A message search: the query, narrowed with ` in:` a channel and
/// ` from:` a user when given.
pub open spec fn search_query_of(q: Seq<char>, channel: Option<Seq<char>>, user: Option<Seq<char>>) -> Seq<char> {
    let a = match channel {
        Some(c) => q + " in:"@ + c,
        None => q,
    };
    match user {
        Some(u) => a + " from:"@ + u,
        None => a,
    }
}

pub fn search_query(query: &str, channel: Option<&str>, user: Option<&str>) -> (r: String)
    ensures
        r@ == search_query_of(
            query@,
            match channel {
                Some(c) => Some(c@),
                None => None,
            },
            match user {
                Some(u) => Some(u@),
                None => None,
            },
        ),
{
    let mut q = String::from_str(query);
    match channel {
        Some(c) => {
            q.append(" in:");
            q.append(c);
        },
        None => {},
    }
    match user {
        Some(u) => {
            q.append(" from:");
            q.append(u);
        },
        None => {},
    }
    q
}

/// The custom emoji that an entry of the emoji list describes: an entry
/// whose url starts with "alias:" is an alias of the emoji named after it.
pub open spec fn emoji_of(name: Seq<char>, url: Seq<char>) -> (Seq<char>, Seq<char>, bool, Option<Seq<char>>) {
    if url.len() >= 6 && url.take(6) == "alias:"@ {
        (name, Seq::empty(), true, Some(url.skip(6)))
    } else {
        (name, url, false, None)
    }
}

pub open spec fn emoji_view(e: CustomEmoji) -> (Seq<char>, Seq<char>, bool, Option<Seq<char>>) {
    (
        e.name@,
        e.url@,
        e.is_alias,
        match e.alias_for {
            Some(a) => Some(a@),
            None => None,
        },
    )
}

pub fn emoji_from_entry(name: String, url: String) -> (r: CustomEmoji)
    ensures
        emoji_view(r) == emoji_of(name@, url@),
{
    let u = chars_of(url.as_str());
    let p = chars_of("alias:");
    proof {
        reveal_strlit("alias:");
    }
    let mut is_alias = u.len() >= 6;
    let mut i: usize = 0;
    while is_alias && i < 6
        invariant
            p@ == "alias:"@,
            p@.len() == 6,
            i <= 6,
            is_alias ==> u@.len() >= 6 && forall|k: int| 0 <= k < i ==> u@[k] == p@[k],
            !is_alias ==> !(u@.len() >= 6 && u@.take(6) == "alias:"@),
        decreases 6 - i,
    {
        if u[i] != p[i] {
            proof {
                assert(u@.take(6)[i as int] != p@[i as int]);
            }
            is_alias = false;
        }
        i += 1;
    }
    if is_alias {
        proof {
            assert(u@.take(6) =~= p@);
        }
        let mut rest: Vec<char> = Vec::new();
        let mut j: usize = 6;
        while j < u.len()
            invariant
                6 <= j <= u@.len(),
                rest@ == u@.subrange(6, j as int),
            decreases u.len() - j,
        {
            rest.push(u[j]);
            proof {
                assert(rest@ =~= u@.subrange(6, j as int + 1));
            }
            j += 1;
        }
        proof {
            assert(u@.subrange(6, u@.len() as int) =~= u@.skip(6));
        }
        CustomEmoji { name, url: String::new(), is_alias: true, alias_for: Some(string_of(&rest)) }
    } else {
        CustomEmoji { name, url, is_alias: false, alias_for: None }
    }
}

/// What `str::to_lowercase` makes of a text.
pub uninterp spec fn lower_of(s: Seq<char>) -> Seq<char>;

/// Relies on `str::to_lowercase`: the result depends on the characters
/// alone.
#[verifier::external_body]
fn lowercase(s: &str) -> (r: String)
    ensures
        r@ == lower_of(s@),
{
    s.to_lowercase()
}

/// Whether an emoji name, lower-cased, holds the lower-cased query.
pub fn name_matches(name_lower: &str, query_lower: &str) -> (r: bool)
    ensures
        r == contains_run(name_lower@, query_lower@),
{
    contains_run_exec(&chars_of(name_lower), &chars_of(query_lower))
}

/// The emoji whose names hold `query`, case aside, in list order.
pub open spec fn emoji_search(all: Seq<CustomEmoji>, q: Seq<char>) -> Seq<CustomEmoji>
    decreases all.len(),
{
    if all.len() == 0 {
        all
    } else {
        let rest = emoji_search(all.drop_last(), q);
        if contains_run(lower_of(all.last().name@), lower_of(q)) {
            rest.push(all.last())
        } else {
            rest
        }
    }
}

pub fn search_emoji(all: Vec<CustomEmoji>, query: &str) -> (r: Vec<CustomEmoji>)
    ensures
        r@ == emoji_search(all@, query@),
{
    let q = lowercase(query);
    let mut out: Vec<CustomEmoji> = Vec::new();
    let mut i: usize = 0;
    while i < all.len()
        invariant
            i <= all@.len(),
            q@ == lower_of(query@),
            out@ == emoji_search(all@.take(i as int), query@),
        decreases all.len() - i,
    {
        proof {
            assert(all@.take(i as int + 1).drop_last() =~= all@.take(i as int));
            assert(all@.take(i as int + 1).last() == all@[i as int]);
        }
        let name = lowercase(all[i].name.as_str());
        if name_matches(name.as_str(), q.as_str()) {
            let e = CustomEmoji {
                name: all[i].name.clone(),
                url: all[i].url.clone(),
                is_alias: all[i].is_alias,
                alias_for: copy_opt_string(&all[i].alias_for),
            };
            proof {
                assert(e == all@[i as int]);
            }
            out.push(e);
        }
        i += 1;
    }
    proof {
        assert(all@.take(all@.len() as int) =~= all@);
    }
    out
}

} // verus!
