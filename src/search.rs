//! The search engine over the index: substring matching with priority
//! tiers, the full-text phrase fallback, and the ranked selection of the
//! first `limit` matches.
use vstd::prelude::*;
use crate::index::{entry_views, IndexEntry, IndexView};
use crate::text::{
    chars_of, contains_run, contains_run_exec, fold, fold_chars, fts_phrase, occurs_at,
    process_fts_query, trim, trim_chars,
};
use crate::words::{
    chars_eq, lemma_lex_asymmetric, lemma_lex_irreflexive, lemma_lex_total, lemma_lex_transitive,
    lex_lt, lex_lt_exec, tokenize, tokens, views,
};

verus! {

pub open spec fn visible(e: IndexView, include_hidden: bool) -> bool {
    include_hidden || !e.hidden
}

pub open spec fn some_field_contains(texts: Seq<Seq<char>>, q: Seq<char>) -> bool {
    exists|f: int| 0 <= f < texts.len() && contains_run(#[trigger] texts[f], q)
}

/// Some field equals the query exactly (case aside, the fields being
/// folded already).
pub open spec fn has_equal_field(texts: Seq<Seq<char>>, q: Seq<char>) -> bool {
    exists|f: int| 0 <= f < texts.len() && #[trigger] texts[f] == q
}

/// The priority of a substring match: 0 when some field equals the query,
/// 1 otherwise.
pub open spec fn exact_tier(texts: Seq<Seq<char>>, q: Seq<char>) -> nat {
    if has_equal_field(texts, q) {
        0
    } else {
        1
    }
}

pub open spec fn phrase_at(ws: Seq<Seq<char>>, ph: Seq<Seq<char>>, p: int) -> bool {
    0 <= p && p + ph.len() <= ws.len() && ws.subrange(p, p + ph.len()) == ph
}

/// The phrase `ph` (at least one word) occurs as consecutive words of `ws`.
pub open spec fn has_phrase(ws: Seq<Seq<char>>, ph: Seq<Seq<char>>) -> bool {
    ph.len() > 0 && exists|p: int| phrase_at(ws, ph, p)
}

/// The first field (from `f` on) whose words hold the phrase.
pub open spec fn phrase_field(words: Seq<Seq<Seq<char>>>, ph: Seq<Seq<char>>, f: nat) -> Option<int>
    decreases words.len() - f,
{
    if f >= words.len() {
        None
    } else if has_phrase(words[f as int], ph) {
        Some(f as int)
    } else {
        phrase_field(words, ph, f + 1)
    }
}

pub open spec fn listing_tier(e: IndexView, include_hidden: bool) -> Option<int> {
    if visible(e, include_hidden) {
        Some(0)
    } else {
        None
    }
}

pub open spec fn substring_tier(e: IndexView, fq: Seq<char>, include_hidden: bool) -> Option<int> {
    if visible(e, include_hidden) && some_field_contains(e.texts, fq) {
        Some(exact_tier(e.texts, fq) as int)
    } else {
        None
    }
}

pub open spec fn phrase_tier(e: IndexView, ph: Seq<Seq<char>>, include_hidden: bool) -> Option<int> {
    if visible(e, include_hidden) {
        phrase_field(e.words, ph, 0)
    } else {
        None
    }
}

pub open spec fn substring_stage_hits(es: Seq<IndexView>, fq: Seq<char>, include_hidden: bool) -> bool {
    exists|i: int| 0 <= i < es.len() && (#[trigger] substring_tier(es[i], fq, include_hidden)) is Some
}

/// The words of the full-text phrase built from a raw query.
pub open spec fn phrase_words(q: Seq<char>) -> Seq<Seq<char>> {
    tokens(fold(fts_phrase(q)))
}

/// For each row, whether the search selects it and with which priority: all
/// visible rows for a blank query; else the substring matches if there are
/// any; else the rows whose words hold the query's phrase.
pub open spec fn search_tiers(es: Seq<IndexView>, q: Seq<char>, include_hidden: bool) -> Seq<Option<int>> {
    if trim(q).len() == 0 {
        es.map_values(|e: IndexView| listing_tier(e, include_hidden))
    } else if substring_stage_hits(es, fold(q), include_hidden) {
        es.map_values(|e: IndexView| substring_tier(e, fold(q), include_hidden))
    } else {
        es.map_values(|e: IndexView| phrase_tier(e, phrase_words(q), include_hidden))
    }
}

pub open spec fn tier_of(o: Option<int>) -> int {
    match o {
        Some(t) => t,
        None => 0,
    }
}

/// Row `i` comes before row `j`: lower tier, then smaller name, then earlier row.
pub open spec fn ranks_before(es: Seq<IndexView>, tiers: Seq<Option<int>>, i: int, j: int) -> bool {
    let ti = tier_of(tiers[i]);
    let tj = tier_of(tiers[j]);
    ti < tj || (ti == tj && lex_lt(es[i].sort_name, es[j].sort_name)) || (ti == tj
        && es[i].sort_name == es[j].sort_name && i < j)
}

pub open spec fn is_candidate(tiers: Seq<Option<int>>, i: int) -> bool {
    0 <= i < tiers.len() && tiers[i] is Some
}

pub open spec fn in_result(r: Seq<usize>, c: int) -> bool {
    exists|k: int| 0 <= k < r.len() && r[k] as int == c
}

/// `r` lists the first `limit` candidates in rank order: each is a candidate,
/// they are strictly ordered, every candidate left out ranks after all of
/// them, and none is left out unless `limit` was reached.
pub open spec fn top_ranked(r: Seq<usize>, es: Seq<IndexView>, tiers: Seq<Option<int>>, limit: nat) -> bool {
    &&& r.len() <= limit
    &&& forall|k: int| 0 <= k < r.len() ==> is_candidate(tiers, #[trigger] r[k] as int)
    &&& forall|k: int, l: int|
        0 <= k < l < r.len() ==> ranks_before(es, tiers, #[trigger] r[k] as int, #[trigger] r[l] as int)
    &&& forall|c: int, k: int|
        #![trigger ranks_before(es, tiers, r[k] as int, c)]
        #![trigger is_candidate(tiers, c), r[k]]
        is_candidate(tiers, c) && !in_result(r, c) && 0 <= k < r.len() ==> ranks_before(
            es,
            tiers,
            r[k] as int,
            c,
        )
    &&& r.len() < limit ==> forall|c: int| is_candidate(tiers, c) ==> #[trigger] in_result(r, c)
}

pub proof fn lemma_rank_irreflexive(es: Seq<IndexView>, tiers: Seq<Option<int>>, i: int)
    ensures
        !ranks_before(es, tiers, i, i),
{
    lemma_lex_irreflexive(es[i].sort_name);
}

pub proof fn lemma_rank_total(es: Seq<IndexView>, tiers: Seq<Option<int>>, i: int, j: int)
    requires
        i != j,
    ensures
        ranks_before(es, tiers, i, j) || ranks_before(es, tiers, j, i),
{
    if es[i].sort_name != es[j].sort_name {
        lemma_lex_total(es[i].sort_name, es[j].sort_name);
    }
}

pub proof fn lemma_rank_transitive(es: Seq<IndexView>, tiers: Seq<Option<int>>, i: int, j: int, k: int)
    requires
        ranks_before(es, tiers, i, j),
        ranks_before(es, tiers, j, k),
    ensures
        ranks_before(es, tiers, i, k),
{
    let (a, b, c) = (es[i].sort_name, es[j].sort_name, es[k].sort_name);
    if tier_of(tiers[i]) == tier_of(tiers[j]) && tier_of(tiers[j]) == tier_of(tiers[k]) {
        if lex_lt(a, b) && lex_lt(b, c) {
            lemma_lex_transitive(a, b, c);
        }
    }
}

pub open spec fn opt_int(o: Option<usize>) -> Option<int> {
    match o {
        Some(t) => Some(t as int),
        None => None,
    }
}

pub open spec fn tier_views(t: Seq<Option<usize>>) -> Seq<Option<int>> {
    t.map_values(|o: Option<usize>| opt_int(o))
}

fn ranks_before_exec(es: &Vec<IndexEntry>, tiers: &Vec<Option<usize>>, i: usize, j: usize) -> (r: bool)
    requires
        i < es@.len(),
        j < es@.len(),
        tiers@.len() == es@.len(),
    ensures
        r == ranks_before(entry_views(es@), tier_views(tiers@), i as int, j as int),
{
    let ti: usize = match tiers[i] {
        Some(t) => t,
        None => 0,
    };
    let tj: usize = match tiers[j] {
        Some(t) => t,
        None => 0,
    };
    if ti != tj {
        return ti < tj;
    }
    if lex_lt_exec(&es[i].sort_name, &es[j].sort_name) {
        return true;
    }
    chars_eq(&es[i].sort_name, &es[j].sort_name) && i < j
}

/// The first `limit` candidates (rows with a tier) in rank order.
pub fn select_top(es: &Vec<IndexEntry>, tiers: &Vec<Option<usize>>, limit: usize) -> (r: Vec<usize>)
    requires
        tiers@.len() == es@.len(),
    ensures
        top_ranked(r@, entry_views(es@), tier_views(tiers@), limit as nat),
{
    let ghost ev = entry_views(es@);
    let ghost tv = tier_views(tiers@);
    let n = es.len();
    let mut r: Vec<usize> = Vec::new();
    while r.len() < limit
        invariant_except_break
            r@.len() <= limit,
        invariant
            n == es@.len(),
            tiers@.len() == n,
            ev == entry_views(es@),
            tv == tier_views(tiers@),
            r@.len() <= limit,
            forall|k: int| 0 <= k < r@.len() ==> is_candidate(tv, #[trigger] r@[k] as int),
            forall|k: int, l: int|
                0 <= k < l < r@.len() ==> ranks_before(ev, tv, #[trigger] r@[k] as int, #[trigger] r@[l] as int),
            forall|c: int, k: int|
                #![trigger ranks_before(ev, tv, r@[k] as int, c)]
                #![trigger is_candidate(tv, c), r@[k]]
                is_candidate(tv, c) && !in_result(r@, c) && 0 <= k < r@.len() ==> ranks_before(
                    ev,
                    tv,
                    r@[k] as int,
                    c,
                ),
        ensures
            r@.len() < limit ==> forall|c: int| is_candidate(tv, c) ==> #[trigger] in_result(r@, c),
        decreases limit - r@.len(),
    {
        let mut best: Option<usize> = None;
        let mut j: usize = 0;
        while j < n
            invariant
                n == es@.len(),
                tiers@.len() == n,
                ev == entry_views(es@),
                tv == tier_views(tiers@),
                j <= n,
                forall|k: int| 0 <= k < r@.len() ==> is_candidate(tv, #[trigger] r@[k] as int),
                best matches Some(b) ==> b < j && is_candidate(tv, b as int) && (r@.len() == 0
                    || ranks_before(ev, tv, r@.last() as int, b as int)),
                forall|c: int|
                    0 <= c < j && is_candidate(tv, c) && (r@.len() == 0 || ranks_before(
                        ev,
                        tv,
                        r@.last() as int,
                        c,
                    )) ==> (best matches Some(b) && (b == c || ranks_before(ev, tv, b as int, c))),
            decreases n - j,
        {
            if tiers[j].is_some() {
                let after_last = r.len() == 0 || ranks_before_exec(es, tiers, r[r.len() - 1], j);
                if after_last {
                    let take = match best {
                        None => true,
                        Some(b) => ranks_before_exec(es, tiers, j, b),
                    };
                    if take {
                        proof {
                            assert forall|c: int|
                                0 <= c < j + 1 && is_candidate(tv, c) && (r@.len() == 0 || ranks_before(
                                    ev,
                                    tv,
                                    r@.last() as int,
                                    c,
                                )) implies (j as int == c || ranks_before(ev, tv, j as int, c)) by {
                                if c < j {
                                    let b = best->0;
                                    if b as int != c {
                                        lemma_rank_transitive(ev, tv, j as int, b as int, c);
                                    }
                                }
                            }
                        }
                        best = Some(j);
                    } else {
                        proof {
                            let b = best->0;
                            lemma_rank_total(ev, tv, j as int, b as int);
                        }
                    }
                }
            }
            j += 1;
        }
        match best {
            None => {
                proof {
                    assert forall|c: int| is_candidate(tv, c) implies #[trigger] in_result(r@, c) by {
                        if !in_result(r@, c) {
                            assert(ranks_before(ev, tv, r@[r@.len() - 1] as int, c));
                        }
                    }
                }
                break;
            },
            Some(b) => {
                let ghost old_r = r@;
                r.push(b);
                proof {
                    assert forall|k: int, l: int| 0 <= k < l < r@.len() implies ranks_before(
                        ev,
                        tv,
                        #[trigger] r@[k] as int,
                        #[trigger] r@[l] as int,
                    ) by {
                        if l == r@.len() - 1 && k < l && old_r.len() > 0 {
                            if k < old_r.len() - 1 {
                                lemma_rank_transitive(ev, tv, old_r[k] as int, old_r.last() as int, b as int);
                            }
                        }
                    }
                    assert forall|c: int, k: int|
                        #![trigger ranks_before(ev, tv, r@[k] as int, c)]
                        #![trigger is_candidate(tv, c), r@[k]]
                        is_candidate(tv, c) && !in_result(r@, c) && 0 <= k < r@.len() implies ranks_before(
                        ev,
                        tv,
                        r@[k] as int,
                        c,
                    ) by {
                        assert(!in_result(old_r, c)) by {
                            if in_result(old_r, c) {
                                let kk = choose|kk: int| 0 <= kk < old_r.len() && old_r[kk] as int == c;
                                assert(r@[kk] as int == c);
                            }
                        }
                        assert(b as int != c) by {
                            assert(r@[r@.len() - 1] as int == b as int);
                        }
                        if old_r.len() > 0 {
                            assert(ranks_before(ev, tv, old_r.last() as int, c));
                        }
                    }
                }
            },
        }
    }
    r
}

fn some_field_contains_exec(texts: &Vec<Vec<char>>, q: &Vec<char>) -> (r: bool)
    ensures
        r == some_field_contains(views(texts@), q@),
{
    let mut f: usize = 0;
    while f < texts.len()
        invariant
            f <= texts@.len(),
            forall|g: int| 0 <= g < f ==> !contains_run(#[trigger] views(texts@)[g], q@),
        decreases texts.len() - f,
    {
        if contains_run_exec(&texts[f], q) {
            proof {
                assert(views(texts@)[f as int] == texts@[f as int]@);
            }
            return true;
        }
        proof {
            assert(views(texts@)[f as int] == texts@[f as int]@);
        }
        f += 1;
    }
    false
}

fn exact_tier_exec(texts: &Vec<Vec<char>>, q: &Vec<char>) -> (r: usize)
    ensures
        r as nat == exact_tier(views(texts@), q@),
{
    let mut f: usize = 0;
    while f < texts.len()
        invariant
            f <= texts@.len(),
            forall|g: int| 0 <= g < f ==> #[trigger] views(texts@)[g] != q@,
        decreases texts.len() - f,
    {
        proof {
            assert(views(texts@)[f as int] == texts@[f as int]@);
        }
        if chars_eq(&texts[f], q) {
            return 0;
        }
        f += 1;
    }
    1
}

fn substring_tier_exec(e: &IndexEntry, fq: &Vec<char>, include_hidden: bool) -> (r: Option<usize>)
    ensures
        opt_int(r) == substring_tier(e@, fq@, include_hidden),
{
    if (include_hidden || !e.hidden) && some_field_contains_exec(&e.texts, fq) {
        Some(exact_tier_exec(&e.texts, fq))
    } else {
        None
    }
}

fn phrase_at_exec(ws: &Vec<Vec<char>>, ph: &Vec<Vec<char>>, p: usize) -> (r: bool)
    ensures
        r == phrase_at(views(ws@), views(ph@), p as int),
{
    if p > ws.len() || ph.len() > ws.len() - p {
        return false;
    }
    let wl = ws.len();
    let mut k: usize = 0;
    while k < ph.len()
        invariant
            wl == ws@.len(),
            p + ph@.len() <= ws@.len(),
            k <= ph@.len(),
            forall|j: int| 0 <= j < k ==> views(ws@)[p + j] == views(ph@)[j],
        decreases ph.len() - k,
    {
        proof {
            assert(views(ws@)[p + k] == ws@[p + k]@);
            assert(views(ph@)[k as int] == ph@[k as int]@);
        }
        if !chars_eq(&ws[p + k], &ph[k]) {
            proof {
                assert(views(ws@).subrange(p as int, p + ph@.len())[k as int] != views(ph@)[k as int]);
            }
            return false;
        }
        k += 1;
    }
    proof {
        assert(views(ws@).subrange(p as int, p + ph@.len()) =~= views(ph@));
    }
    true
}

fn has_phrase_exec(ws: &Vec<Vec<char>>, ph: &Vec<Vec<char>>) -> (r: bool)
    ensures
        r == has_phrase(views(ws@), views(ph@)),
{
    if ph.len() == 0 || ph.len() > ws.len() {
        return false;
    }
    let last = ws.len() - ph.len();
    let mut p: usize = 0;
    loop
        invariant
            last == ws@.len() - ph@.len(),
            ph@.len() > 0,
            p <= last,
            forall|q: int| 0 <= q < p ==> !phrase_at(views(ws@), views(ph@), q),
        decreases last - p,
    {
        if phrase_at_exec(ws, ph, p) {
            return true;
        }
        if p == last {
            proof {
                assert forall|q: int| #![trigger phrase_at(views(ws@), views(ph@), q)] !phrase_at(views(ws@), views(ph@), q) by {
                    if 0 <= q && q < p {
                    }
                }
            }
            return false;
        }
        p += 1;
    }
}

fn phrase_tier_exec(e: &IndexEntry, ph: &Vec<Vec<char>>, include_hidden: bool) -> (r: Option<usize>)
    ensures
        opt_int(r) == phrase_tier(e@, views(ph@), include_hidden),
{
    if !(include_hidden || !e.hidden) {
        return None;
    }
    let ghost wv = e@.words;
    let mut f: usize = 0;
    while f < e.words.len()
        invariant
            f <= e.words@.len(),
            wv == e@.words,
            wv.len() == e.words@.len(),
            include_hidden || !e.hidden,
            phrase_field(wv, views(ph@), 0) == phrase_field(wv, views(ph@), f as nat),
        decreases e.words.len() - f,
    {
        proof {
            assert(wv[f as int] == views(e.words@[f as int]@));
        }
        if has_phrase_exec(&e.words[f], ph) {
            return Some(f);
        }
        f += 1;
    }
    None
}

/// Answers a search over the index: the rows that `search_tiers` selects for
/// `query`, in rank order, at most `limit` of them.
pub fn search_entries(es: &Vec<IndexEntry>, query: &str, limit: usize, include_hidden: bool) -> (r: Vec<usize>)
    ensures
        top_ranked(r@, entry_views(es@), search_tiers(entry_views(es@), query@, include_hidden), limit as nat),
{
    let ghost ev = entry_views(es@);
    let q = chars_of(query);
    let t = trim_chars(&q);
    let n = es.len();
    let mut tiers: Vec<Option<usize>> = Vec::new();
    if t.len() == 0 {
        let mut i: usize = 0;
        while i < n
            invariant
                n == es@.len(),
                ev == entry_views(es@),
                i <= n,
                tier_views(tiers@) == ev.take(i as int).map_values(|e: IndexView| listing_tier(e, include_hidden)),
            decreases n - i,
        {
            let o: Option<usize> = if include_hidden || !es[i].hidden {
                Some(0)
            } else {
                None
            };
            let ghost old_t = tier_views(tiers@);
            tiers.push(o);
            proof {
                assert(ev[i as int] == es@[i as int]@);
                assert(tier_views(tiers@) =~= old_t.push(opt_int(o)));
                assert(ev.take(i as int + 1).map_values(|e: IndexView| listing_tier(e, include_hidden)) =~= ev.take(
                    i as int,
                ).map_values(|e: IndexView| listing_tier(e, include_hidden)).push(listing_tier(ev[i as int], include_hidden)));
            }
            i += 1;
        }
        proof {
            assert(ev.take(n as int) =~= ev);
        }
    } else {
        let fq = fold_chars(&q);
        let mut any = false;
        let mut i: usize = 0;
        while i < n
            invariant
                n == es@.len(),
                ev == entry_views(es@),
                i <= n,
                fq@ == fold(query@),
                tier_views(tiers@) == ev.take(i as int).map_values(|e: IndexView| substring_tier(e, fold(query@), include_hidden)),
                any == exists|k: int| 0 <= k < i && (#[trigger] substring_tier(ev[k], fold(query@), include_hidden)) is Some,
            decreases n - i,
        {
            let o = substring_tier_exec(&es[i], &fq, include_hidden);
            let ghost old_t = tier_views(tiers@);
            proof {
                assert(ev[i as int] == es@[i as int]@);
            }
            if o.is_some() {
                any = true;
            }
            tiers.push(o);
            proof {
                assert(tier_views(tiers@) =~= old_t.push(opt_int(o)));
                assert(ev.take(i as int + 1).map_values(|e: IndexView| substring_tier(e, fold(query@), include_hidden)) =~= ev.take(
                    i as int,
                ).map_values(|e: IndexView| substring_tier(e, fold(query@), include_hidden)).push(
                    substring_tier(ev[i as int], fold(query@), include_hidden),
                ));
            }
            i += 1;
        }
        proof {
            assert(ev.take(n as int) =~= ev);
        }
        if !any {
            let phrase = process_fts_query(query);
            let pc = chars_of(phrase.as_str());
            let pf = fold_chars(&pc);
            let ph = tokenize(&pf);
            let mut ptiers: Vec<Option<usize>> = Vec::new();
            let mut i: usize = 0;
            while i < n
                invariant
                    n == es@.len(),
                    ev == entry_views(es@),
                    i <= n,
                    views(ph@) == phrase_words(query@),
                    tier_views(ptiers@) == ev.take(i as int).map_values(|e: IndexView| phrase_tier(e, phrase_words(query@), include_hidden)),
                decreases n - i,
            {
                let o = phrase_tier_exec(&es[i], &ph, include_hidden);
                let ghost old_t = tier_views(ptiers@);
                proof {
                    assert(ev[i as int] == es@[i as int]@);
                }
                ptiers.push(o);
                proof {
                    assert(tier_views(ptiers@) =~= old_t.push(opt_int(o)));
                    assert(ev.take(i as int + 1).map_values(|e: IndexView| phrase_tier(e, phrase_words(query@), include_hidden)) =~= ev.take(
                        i as int,
                    ).map_values(|e: IndexView| phrase_tier(e, phrase_words(query@), include_hidden)).push(
                        phrase_tier(ev[i as int], phrase_words(query@), include_hidden),
                    ));
                }
                i += 1;
            }
            proof {
                assert(ev.take(n as int) =~= ev);
                assert(!substring_stage_hits(ev, fold(query@), include_hidden));
            }
            tiers = ptiers;
        }
    }
    select_top(es, &tiers, limit)
}

/// A blank query lists visible rows only, in non-decreasing name order, at
/// most `limit` of them.
pub proof fn lemma_blank_query_lists_by_name(
    es: Seq<IndexView>,
    q: Seq<char>,
    include_hidden: bool,
    limit: nat,
    idx: Seq<usize>,
)
    requires
        trim(q).len() == 0,
        top_ranked(idx, es, search_tiers(es, q, include_hidden), limit),
    ensures
        idx.len() <= limit,
        forall|k: int| 0 <= k < idx.len() ==> visible(es[#[trigger] idx[k] as int], include_hidden),
        forall|k: int, l: int|
            0 <= k < l < idx.len() ==> !lex_lt(es[#[trigger] idx[l] as int].sort_name, es[#[trigger] idx[k] as int].sort_name),
        idx.len() < limit ==> forall|c: int| 0 <= c < es.len() && visible(es[c], include_hidden) ==> #[trigger] in_result(idx, c),
        forall|c: int, k: int|
            #![trigger lex_lt(es[c].sort_name, es[idx[k] as int].sort_name)]
            0 <= c < es.len() && visible(es[c], include_hidden) && !in_result(idx, c) && 0 <= k < idx.len()
                ==> !lex_lt(es[c].sort_name, es[idx[k] as int].sort_name),
{
    let tiers = search_tiers(es, q, include_hidden);
    assert forall|c: int| 0 <= c < es.len() && visible(es[c], include_hidden) implies #[trigger] is_candidate(tiers, c) by {
        assert(tiers[c] == listing_tier(es[c], include_hidden));
    }
    assert forall|c: int, k: int|
        #![trigger lex_lt(es[c].sort_name, es[idx[k] as int].sort_name)]
        0 <= c < es.len() && visible(es[c], include_hidden) && !in_result(idx, c) && 0 <= k < idx.len()
            implies !lex_lt(es[c].sort_name, es[idx[k] as int].sort_name) by {
        let a = idx[k] as int;
        assert(is_candidate(tiers, c));
        assert(ranks_before(es, tiers, a, c));
        assert(is_candidate(tiers, a));
        assert(tier_of(tiers[a]) == 0 && tier_of(tiers[c]) == 0);
        if lex_lt(es[a].sort_name, es[c].sort_name) {
            lemma_lex_asymmetric(es[a].sort_name, es[c].sort_name);
        } else {
            lemma_lex_irreflexive(es[a].sort_name);
        }
    }
    if idx.len() < limit {
        assert forall|c: int| 0 <= c < es.len() && visible(es[c], include_hidden) implies #[trigger] in_result(idx, c) by {
            assert(is_candidate(tiers, c));
        }
    }
    assert forall|k: int| 0 <= k < idx.len() implies visible(es[#[trigger] idx[k] as int], include_hidden) by {
        assert(is_candidate(tiers, idx[k] as int));
    }
    assert forall|k: int, l: int|
        0 <= k < l < idx.len() implies !lex_lt(es[#[trigger] idx[l] as int].sort_name, es[#[trigger] idx[k] as int].sort_name) by {
        let (a, b) = (idx[k] as int, idx[l] as int);
        assert(ranks_before(es, tiers, a, b));
        assert(is_candidate(tiers, a) && is_candidate(tiers, b));
        assert(tier_of(tiers[a]) == 0 && tier_of(tiers[b]) == 0);
        if lex_lt(es[a].sort_name, es[b].sort_name) {
            lemma_lex_asymmetric(es[a].sort_name, es[b].sort_name);
        } else {
            lemma_lex_irreflexive(es[a].sort_name);
        }
    }
}

/// A query that equals some field of a visible row, case aside, puts a row
/// with an equal field first, ahead of rows that merely contain it, whenever
/// at least one row is asked for.
pub proof fn lemma_exact_match_ranks_first(
    es: Seq<IndexView>,
    q: Seq<char>,
    include_hidden: bool,
    limit: nat,
    idx: Seq<usize>,
    i: int,
)
    requires
        trim(q).len() > 0,
        limit > 0,
        0 <= i < es.len(),
        visible(es[i], include_hidden),
        has_equal_field(es[i].texts, fold(q)),
        top_ranked(idx, es, search_tiers(es, q, include_hidden), limit),
    ensures
        idx.len() > 0,
        has_equal_field(es[idx[0] as int].texts, fold(q)),
{
    let fq = fold(q);
    let e = es[i];
    let g = choose|g: int| 0 <= g < e.texts.len() && #[trigger] e.texts[g] == fq;
    assert(occurs_at(e.texts[g], fq, 0)) by {
        assert(e.texts[g].subrange(0, fq.len() as int) =~= fq);
    }
    assert(some_field_contains(e.texts, fq));
    assert(substring_tier(e, fq, include_hidden) == Some(0int));
    assert(substring_stage_hits(es, fq, include_hidden));
    let tiers = search_tiers(es, q, include_hidden);
    assert(tiers == es.map_values(|x: IndexView| substring_tier(x, fold(q), include_hidden)));
    assert(tiers[i] == Some(0int));
    assert(is_candidate(tiers, i));
    if idx.len() == 0 {
        assert(in_result(idx, i));
    }
    let f = idx[0] as int;
    assert(is_candidate(tiers, f));
    let ef = es[f];
    assert(tiers[f] == substring_tier(ef, fq, include_hidden));
    if in_result(idx, i) {
        let k = choose|k: int| 0 <= k < idx.len() && idx[k] as int == i;
        if k > 0 {
            assert(ranks_before(es, tiers, idx[0] as int, idx[k] as int));
        }
    } else {
        assert(ranks_before(es, tiers, idx[0] as int, i));
    }
    assert(tier_of(tiers[f]) <= 0);
}

/// With no substring match, a non-blank query is answered by the full-text
/// stage alone.
pub proof fn lemma_fallback_to_phrase(es: Seq<IndexView>, q: Seq<char>, include_hidden: bool)
    requires
        trim(q).len() > 0,
        !substring_stage_hits(es, fold(q), include_hidden),
    ensures
        search_tiers(es, q, include_hidden) == es.map_values(|e: IndexView| phrase_tier(e, phrase_words(q), include_hidden)),
{
}

/// When no row is selected, the answer is empty.
pub proof fn lemma_no_candidates_empty(es: Seq<IndexView>, tiers: Seq<Option<int>>, limit: nat, idx: Seq<usize>)
    requires
        forall|c: int| 0 <= c < tiers.len() ==> tiers[c] is None,
        top_ranked(idx, es, tiers, limit),
    ensures
        idx.len() == 0,
{
    if idx.len() > 0 {
        assert(is_candidate(tiers, idx[0] as int));
    }
}

/// `top_ranked` admits one answer only: any two lists it accepts for the
/// same rows, tiers and limit are equal, so a contract stated with it fixes
/// the result.
pub proof fn lemma_top_ranked_unique(
    es: Seq<IndexView>,
    tiers: Seq<Option<int>>,
    limit: nat,
    r1: Seq<usize>,
    r2: Seq<usize>,
)
    requires
        top_ranked(r1, es, tiers, limit),
        top_ranked(r2, es, tiers, limit),
    ensures
        r1 == r2,
{
    let n = if r1.len() < r2.len() {
        r1.len()
    } else {
        r2.len()
    };
    assert forall|k: int| 0 <= k < n implies r1[k] == r2[k] by {
        lemma_top_ranked_prefix(es, tiers, limit, r1, r2, k);
    }
    if r1.len() < r2.len() {
        lemma_longer_is_impossible(es, tiers, limit, r1, r2);
    } else if r2.len() < r1.len() {
        assert forall|k: int| 0 <= k < r2.len() implies r2[k] == r1[k] by {}
        lemma_longer_is_impossible(es, tiers, limit, r2, r1);
    }
    assert(r1 =~= r2);
}

proof fn lemma_top_ranked_prefix(
    es: Seq<IndexView>,
    tiers: Seq<Option<int>>,
    limit: nat,
    r1: Seq<usize>,
    r2: Seq<usize>,
    k: int,
)
    requires
        top_ranked(r1, es, tiers, limit),
        top_ranked(r2, es, tiers, limit),
        0 <= k < r1.len(),
        k < r2.len(),
    ensures
        r1[k] == r2[k],
    decreases k,
{
    assert forall|j: int| 0 <= j < k implies r1[j] == r2[j] by {
        lemma_top_ranked_prefix(es, tiers, limit, r1, r2, j);
    }
    if r1[k] != r2[k] {
        let (a, b) = (r1[k] as int, r2[k] as int);
        lemma_rank_total(es, tiers, a, b);
        if ranks_before(es, tiers, a, b) {
            lemma_first_differs(es, tiers, r1, r2, k);
        } else {
            assert forall|j: int| 0 <= j < k implies r2[j] == r1[j] by {}
            lemma_first_differs(es, tiers, r2, r1, k);
        }
    }
}

/// Where two accepted lists first differ, the first list's element does not
/// rank before the second's.
proof fn lemma_first_differs(es: Seq<IndexView>, tiers: Seq<Option<int>>, r1: Seq<usize>, r2: Seq<usize>, k: int)
    requires
        forall|i: int, j: int| 0 <= i < j < r1.len() ==> ranks_before(es, tiers, #[trigger] r1[i] as int, #[trigger] r1[j] as int),
        forall|i: int, j: int| 0 <= i < j < r2.len() ==> ranks_before(es, tiers, #[trigger] r2[i] as int, #[trigger] r2[j] as int),
        forall|c: int, i: int|
            #![trigger ranks_before(es, tiers, r2[i] as int, c)]
            #![trigger is_candidate(tiers, c), r2[i]]
            is_candidate(tiers, c) && !in_result(r2, c) && 0 <= i < r2.len() ==> ranks_before(es, tiers, r2[i] as int, c),
        forall|i: int| 0 <= i < r1.len() ==> is_candidate(tiers, #[trigger] r1[i] as int),
        0 <= k < r1.len(),
        k < r2.len(),
        forall|j: int| 0 <= j < k ==> r1[j] == r2[j],
        r1[k] != r2[k],
    ensures
        !ranks_before(es, tiers, r1[k] as int, r2[k] as int),
{
    let (a, b) = (r1[k] as int, r2[k] as int);
    if !ranks_before(es, tiers, a, b) {
    } else if in_result(r2, a) {
        let j = choose|j: int| 0 <= j < r2.len() && r2[j] as int == a;
        if j < k {
            assert(r1[j] == r2[j]);
            assert(ranks_before(es, tiers, r1[j] as int, r1[k] as int));
            lemma_rank_irreflexive(es, tiers, a);
        } else if j == k {
        } else {
            assert(ranks_before(es, tiers, r2[k] as int, r2[j] as int));
            lemma_rank_transitive(es, tiers, a, b, a);
            lemma_rank_irreflexive(es, tiers, a);
        }
    } else {
        assert(is_candidate(tiers, a));
        assert(ranks_before(es, tiers, r2[k] as int, a));
        lemma_rank_transitive(es, tiers, a, b, a);
        lemma_rank_irreflexive(es, tiers, a);
    }
}

/// Of two accepted lists that agree where both are defined, the first is
/// not the shorter.
proof fn lemma_longer_is_impossible(
    es: Seq<IndexView>,
    tiers: Seq<Option<int>>,
    limit: nat,
    r1: Seq<usize>,
    r2: Seq<usize>,
)
    requires
        top_ranked(r1, es, tiers, limit),
        top_ranked(r2, es, tiers, limit),
        forall|k: int| 0 <= k < r1.len() && k < r2.len() ==> r1[k] == r2[k],
    ensures
        r1.len() >= r2.len(),
{
    if r1.len() >= r2.len() {
        return;
    }
    let m = r1.len() as int;
    let c = r2[m] as int;
    assert(is_candidate(tiers, c));
    assert(r1.len() < limit);
    assert(in_result(r1, c));
    let j = choose|j: int| 0 <= j < r1.len() && r1[j] as int == c;
    assert(r2[j] == r1[j]);
    assert(ranks_before(es, tiers, r2[j] as int, r2[m] as int));
    lemma_rank_irreflexive(es, tiers, c);
}

} // verus!
