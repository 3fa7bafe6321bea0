//! The lines printed for a message attachment: pretext, author and title,
//! the text's non-blank lines, the first line of each field's value and the
//! footer, or else the fallback text.
use vstd::prelude::*;
use crate::config::string_views;
use crate::text::{chars_of, string_of, trim, trim_chars};

verus! {

/// One field of an attachment.
pub struct AttachmentField {
    pub title: Option<String>,
    pub value: Option<String>,
}

/// The parts of a message attachment that are printed.
pub struct Attachment {
    pub pretext: Option<String>,
    pub author_name: Option<String>,
    pub title: Option<String>,
    pub text: Option<String>,
    pub fields: Vec<AttachmentField>,
    pub footer: Option<String>,
    pub fallback: Option<String>,
}

/// The pieces of `s` between line feeds (one more than there are feeds).
pub open spec fn split_lf(s: Seq<char>) -> Seq<Seq<char>>
    decreases s.len(),
{
    if s.len() == 0 {
        seq![Seq::empty()]
    } else {
        let p = split_lf(s.drop_last());
        if s.last() == '\n' {
            p.push(Seq::empty())
        } else {
            p.drop_last().push(p.last().push(s.last()))
        }
    }
}

pub open spec fn strip_cr(l: Seq<char>) -> Seq<char> {
    if l.len() > 0 && l.last() == '\r' {
        l.drop_last()
    } else {
        l
    }
}

/// The lines of `s` as `str::lines` yields them: no line after a final line
/// feed, and a carriage return before a feed is dropped.
pub open spec fn lines(s: Seq<char>) -> Seq<Seq<char>> {
    if s.len() == 0 {
        Seq::empty()
    } else {
        let p = split_lf(s);
        let q = if s.last() == '\n' {
            p.drop_last()
        } else {
            p
        };
        q.map_values(|l: Seq<char>| strip_cr(l))
    }
}

/// The first line of `s`, or `s` itself when it has no line.
pub open spec fn first_line(s: Seq<char>) -> Seq<char> {
    if lines(s).len() > 0 {
        lines(s)[0]
    } else {
        s
    }
}

pub open spec fn bar(s: Seq<char>) -> Seq<char> {
    "  │ "@ + s
}

pub open spec fn set_text(o: Option<String>) -> bool {
    o is Some && o->0@.len() > 0
}

/// The barred, trimmed, non-blank lines among `ls`.
pub open spec fn body_lines(ls: Seq<Seq<char>>) -> Seq<Seq<char>>
    decreases ls.len(),
{
    if ls.len() == 0 {
        Seq::empty()
    } else {
        let rest = body_lines(ls.drop_last());
        let t = trim(ls.last());
        if t.len() > 0 {
            rest.push(bar(t))
        } else {
            rest
        }
    }
}

/// The lines of the fields that have a value.
pub open spec fn field_lines(fs: Seq<AttachmentField>) -> Seq<Seq<char>>
    decreases fs.len(),
{
    if fs.len() == 0 {
        Seq::empty()
    } else {
        let rest = field_lines(fs.drop_last());
        let f = fs.last();
        match f.value {
            None => rest,
            Some(v) => match f.title {
                Some(t) => rest.push(bar(t@ + ": "@ + first_line(v@))),
                None => rest.push(bar(first_line(v@))),
            },
        }
    }
}

pub open spec fn head_lines(author: Option<String>, title: Option<String>) -> Seq<Seq<char>> {
    match (author, title) {
        (Some(a), Some(t)) => seq![bar(a@ + ": "@ + t@)],
        (Some(a), None) => seq![bar(a@)],
        (None, Some(t)) => seq![bar(t@)],
        (None, None) => Seq::empty(),
    }
}

/// Whether any part besides the fallback is shown.
pub open spec fn rendered(a: Attachment) -> bool {
    set_text(a.pretext) || a.author_name is Some || a.title is Some || set_text(a.text) || (exists|i: int|
        0 <= i < a.fields@.len() && (#[trigger] a.fields@[i]).value is Some) || set_text(a.footer)
}

/// Everything printed for attachment `a`, line by line.
pub open spec fn attachment_text(a: Attachment) -> Seq<Seq<char>> {
    let pre = if set_text(a.pretext) {
        seq![bar(a.pretext->0@)]
    } else {
        Seq::empty()
    };
    let body = if set_text(a.text) {
        body_lines(lines(a.text->0@))
    } else {
        Seq::empty()
    };
    let foot = if set_text(a.footer) {
        seq![bar(a.footer->0@)]
    } else {
        Seq::empty()
    };
    let fall = if !rendered(a) && set_text(a.fallback) {
        seq![bar(a.fallback->0@)]
    } else {
        Seq::empty()
    };
    pre + head_lines(a.author_name, a.title) + body + field_lines(a.fields@) + foot + fall
}

pub open spec fn chars_views(v: Seq<Vec<char>>) -> Seq<Seq<char>> {
    v.map_values(|w: Vec<char>| w@)
}

fn split_lf_exec(s: &Vec<char>) -> (r: Vec<Vec<char>>)
    ensures
        chars_views(r@) == split_lf(s@),
{
    let mut pieces: Vec<Vec<char>> = Vec::new();
    pieces.push(Vec::new());
    let mut i: usize = 0;
    proof {
        assert(s@.take(0) =~= Seq::<char>::empty());
        assert(chars_views(pieces@) =~= seq![Seq::<char>::empty()]);
    }
    while i < s.len()
        invariant
            i <= s@.len(),
            chars_views(pieces@) == split_lf(s@.take(i as int)),
            pieces@.len() > 0,
        decreases s.len() - i,
    {
        let c = s[i];
        let ghost prev = split_lf(s@.take(i as int));
        proof {
            assert(s@.take(i as int + 1).drop_last() =~= s@.take(i as int));
            assert(s@.take(i as int + 1).last() == c);
        }
        if c == '\n' {
            pieces.push(Vec::new());
            proof {
                assert(chars_views(pieces@) =~= prev.push(Seq::empty()));
            }
        } else {
            let mut last = pieces.pop().unwrap();
            last.push(c);
            pieces.push(last);
            proof {
                assert(chars_views(pieces@) =~= prev.drop_last().push(prev.last().push(c)));
            }
        }
        i += 1;
    }
    proof {
        assert(s@.take(s@.len() as int) =~= s@);
    }
    pieces
}

fn strip_cr_exec(l: Vec<char>) -> (r: Vec<char>)
    ensures
        r@ == strip_cr(l@),
{
    let mut l = l;
    if l.len() > 0 && l[l.len() - 1] == '\r' {
        l.pop();
    }
    l
}

/// The lines of `s`.
pub fn lines_exec(s: &Vec<char>) -> (r: Vec<Vec<char>>)
    ensures
        chars_views(r@) == lines(s@),
{
    if s.len() == 0 {
        let r: Vec<Vec<char>> = Vec::new();
        proof {
            assert(chars_views(r@) =~= Seq::<Seq<char>>::empty());
        }
        return r;
    }
    let mut pieces = split_lf_exec(s);
    let ghost p = split_lf(s@);
    if s[s.len() - 1] == '\n' {
        pieces.pop();
        proof {
            assert(chars_views(pieces@) =~= p.drop_last());
        }
    }
    let ghost q = chars_views(pieces@);
    let mut r: Vec<Vec<char>> = Vec::new();
    let mut i: usize = 0;
    while i < pieces.len()
        invariant
            i <= pieces@.len(),
            q == chars_views(pieces@),
            chars_views(r@) == q.take(i as int).map_values(|l: Seq<char>| strip_cr(l)),
        decreases pieces.len() - i,
    {
        let line = strip_cr_exec(pieces[i].clone());
        let ghost before = chars_views(r@);
        r.push(line);
        proof {
            assert(q[i as int] == pieces@[i as int]@);
            assert(chars_views(r@) =~= before.push(strip_cr(q[i as int])));
            assert(q.take(i as int + 1).map_values(|l: Seq<char>| strip_cr(l)) =~= q.take(i as int).map_values(
                |l: Seq<char>| strip_cr(l),
            ).push(strip_cr(q[i as int])));
        }
        i += 1;
    }
    proof {
        assert(q.take(q.len() as int) =~= q);
    }
    r
}

fn bar_exec(s: &Vec<char>) -> (r: String)
    ensures
        r@ == bar(s@),
{
    let mut v = chars_of("  │ ");
    let ghost pre = v@;
    let mut i: usize = 0;
    while i < s.len()
        invariant
            i <= s@.len(),
            pre == "  │ "@,
            v@ == pre + s@.take(i as int),
        decreases s.len() - i,
    {
        v.push(s[i]);
        proof {
            assert(v@ =~= pre + s@.take(i as int + 1));
        }
        i += 1;
    }
    proof {
        assert(s@.take(s@.len() as int) =~= s@);
    }
    string_of(&v)
}

fn set_text_exec(o: &Option<String>) -> (r: bool)
    ensures
        r == set_text(*o),
{
    match o {
        Some(s) => s.as_str().unicode_len() > 0,
        None => false,
    }
}

fn first_line_exec(v: &Vec<char>) -> (r: Vec<char>)
    ensures
        r@ == first_line(v@),
{
    let ls = lines_exec(v);
    if ls.len() > 0 {
        proof {
            assert(chars_views(ls@)[0] == ls@[0]@);
        }
        ls[0].clone()
    } else {
        v.clone()
    }
}

/// Joins `a`, ": " and `b`.
fn labelled(a: &String, b: &Vec<char>) -> (r: Vec<char>)
    ensures
        r@ == a@ + ": "@ + b@,
{
    let mut v = chars_of(a.as_str());
    let ghost start = v@;
    v.push(':');
    v.push(' ');
    proof {
        reveal_strlit(": ");
        assert(v@ =~= start + ": "@);
    }
    let ghost mid = v@;
    let mut i: usize = 0;
    while i < b.len()
        invariant
            i <= b@.len(),
            v@ == mid + b@.take(i as int),
        decreases b.len() - i,
    {
        v.push(b[i]);
        proof {
            assert(v@ =~= mid + b@.take(i as int + 1));
        }
        i += 1;
    }
    proof {
        assert(b@.take(b@.len() as int) =~= b@);
    }
    v
}

/// The lines printed for `att`.
pub fn attachment_lines(att: &Attachment) -> (r: Vec<String>)
    ensures
        string_views(r@) == attachment_text(*att),
{
    let mut out: Vec<String> = Vec::new();
    let mut shown = false;
    let ghost a = *att;

    if set_text_exec(&att.pretext) {
        match &att.pretext {
            Some(p) => {
                out.push(bar_exec(&chars_of(p.as_str())));
                shown = true;
            },
            None => {},
        }
    }
    proof {
        let pre = if set_text(a.pretext) { seq![bar(a.pretext->0@)] } else { Seq::<Seq<char>>::empty() };
        assert(string_views(out@) =~= pre);
    }
    let ghost after_pre = string_views(out@);
    match (&att.author_name, &att.title) {
        (Some(au), Some(t)) => {
            out.push(bar_exec(&labelled(au, &chars_of(t.as_str()))));
            shown = true;
        },
        (Some(au), None) => {
            out.push(bar_exec(&chars_of(au.as_str())));
            shown = true;
        },
        (None, Some(t)) => {
            out.push(bar_exec(&chars_of(t.as_str())));
            shown = true;
        },
        (None, None) => {},
    }
    proof {
        assert(string_views(out@) =~= after_pre + head_lines(a.author_name, a.title));
    }
    let ghost after_head = string_views(out@);
    if set_text_exec(&att.text) {
        match &att.text {
            Some(t) => {
                let ls = lines_exec(&chars_of(t.as_str()));
                let ghost lv = chars_views(ls@);
                let mut i: usize = 0;
                while i < ls.len()
                    invariant
                        i <= ls@.len(),
                        lv == chars_views(ls@),
                        string_views(out@) == after_head + body_lines(lv.take(i as int)),
                    decreases ls.len() - i,
                {
                    let tl = trim_chars(&ls[i]);
                    proof {
                        assert(lv[i as int] == ls@[i as int]@);
                        assert(lv.take(i as int + 1).drop_last() =~= lv.take(i as int));
                        assert(lv.take(i as int + 1).last() == lv[i as int]);
                    }
                    if tl.len() > 0 {
                        let ghost before = string_views(out@);
                        let line = bar_exec(&tl);
                        out.push(line);
                        proof {
                            assert(string_views(out@) =~= before.push(bar(tl@)));
                        }
                    }
                    i += 1;
                }
                proof {
                    assert(lv.take(lv.len() as int) =~= lv);
                }
                shown = true;
            },
            None => {},
        }
    }
    let ghost body = if set_text(a.text) { body_lines(lines(a.text->0@)) } else { Seq::<Seq<char>>::empty() };
    proof {
        assert(string_views(out@) =~= after_head + body);
    }
    let ghost after_body = string_views(out@);
    let mut j: usize = 0;
    let mut any_field = false;
    while j < att.fields.len()
        invariant
            j <= att.fields@.len(),
            a == *att,
            string_views(out@) == after_body + field_lines(att.fields@.take(j as int)),
            any_field == exists|k: int| 0 <= k < j && (#[trigger] att.fields@[k]).value is Some,
            shown == (set_text(a.pretext) || a.author_name is Some || a.title is Some || set_text(a.text)),
        decreases att.fields.len() - j,
    {
        let f = &att.fields[j];
        proof {
            assert(att.fields@.take(j as int + 1).drop_last() =~= att.fields@.take(j as int));
            assert(att.fields@.take(j as int + 1).last() == att.fields@[j as int]);
        }
        let ghost before = string_views(out@);
        match &f.value {
            None => {},
            Some(v) => {
                let first = first_line_exec(&chars_of(v.as_str()));
                match &f.title {
                    Some(t) => {
                        let line = bar_exec(&labelled(t, &first));
                        out.push(line);
                    },
                    None => {
                        let line = bar_exec(&first);
                        out.push(line);
                    },
                }
                any_field = true;
                proof {
                    assert(string_views(out@) =~= before.push(string_views(out@).last()));
                }
            },
        }
        j += 1;
    }
    proof {
        assert(att.fields@.take(att.fields@.len() as int) =~= att.fields@);
    }
    let ghost after_fields = string_views(out@);
    if set_text_exec(&att.footer) {
        match &att.footer {
            Some(ft) => {
                out.push(bar_exec(&chars_of(ft.as_str())));
            },
            None => {},
        }
    }
    let shown_any = shown || any_field || set_text_exec(&att.footer);
    proof {
        let foot = if set_text(a.footer) { seq![bar(a.footer->0@)] } else { Seq::<Seq<char>>::empty() };
        assert(string_views(out@) =~= after_fields + foot);
        assert(shown_any == rendered(a));
    }
    let ghost after_foot = string_views(out@);
    if !shown_any && set_text_exec(&att.fallback) {
        match &att.fallback {
            Some(fb) => {
                out.push(bar_exec(&chars_of(fb.as_str())));
            },
            None => {},
        }
    }
    proof {
        let fall = if !rendered(a) && set_text(a.fallback) { seq![bar(a.fallback->0@)] } else { Seq::<Seq<char>>::empty() };
        assert(string_views(out@) =~= after_foot + fall);
    }
    out
}

/// Who a message is shown as from: its user, else the bot's display name,
/// else the bot id, else "system".
pub open spec fn author_of(user: Option<String>, username: Option<String>, bot_id: Option<String>) -> Seq<char> {
    match user {
        Some(u) => u@,
        None => match username {
            Some(n) => n@,
            None => match bot_id {
                Some(b) => b@,
                None => "system"@,
            },
        },
    }
}

pub fn message_author(user: &Option<String>, username: &Option<String>, bot_id: &Option<String>) -> (r: String)
    ensures
        r@ == author_of(*user, *username, *bot_id),
{
    match user {
        Some(u) => u.clone(),
        None => match username {
            Some(n) => n.clone(),
            None => match bot_id {
                Some(b) => b.clone(),
                None => String::from_str("system"),
            },
        },
    }
}

/// Longest preview of a pinned message's text, in characters.
pub const PIN_PREVIEW_CHARS: usize = 60;

/// A pinned message's text as previewed: at most the first sixty
/// characters, followed by "..." when some were cut.
pub open spec fn preview_of(t: Seq<char>) -> Seq<char> {
    if t.len() > PIN_PREVIEW_CHARS {
        t.take(PIN_PREVIEW_CHARS as int) + "..."@
    } else {
        t
    }
}

pub fn pin_preview(text: &str) -> (r: String)
    ensures
        r@ == preview_of(text@),
{
    let t = chars_of(text);
    if t.len() <= PIN_PREVIEW_CHARS {
        return string_of(&t);
    }
    let mut v: Vec<char> = Vec::new();
    let mut i: usize = 0;
    while i < PIN_PREVIEW_CHARS
        invariant
            i <= PIN_PREVIEW_CHARS,
            t@.len() > PIN_PREVIEW_CHARS,
            v@ == t@.take(i as int),
        decreases PIN_PREVIEW_CHARS - i,
    {
        v.push(t[i]);
        proof {
            assert(v@ =~= t@.take(i as int + 1));
        }
        i += 1;
    }
    let mut r = string_of(&v);
    r.append("...");
    r
}

} // verus!
