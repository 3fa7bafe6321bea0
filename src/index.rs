//! The indexed projection of an entity row: its ordering name, its
//! case-folded text fields and their words, rebuilt from the payload.
use vstd::prelude::*;
use crate::text::{fold, fold_chars};
use crate::words::{tokenize, tokens, views};

verus! {

/// The searchable projection of one entity row: its ordering name, its
/// case-folded text fields,
/// the words of each field (the full-text index), and whether the standing
/// filter hides it.
pub struct IndexEntry {
    pub sort_name: Vec<char>,
    pub texts: Vec<Vec<char>>,
    pub words: Vec<Vec<Vec<char>>>,
    pub hidden: bool,
}

/// An index entry as the contracts see it.
pub struct IndexView {
    pub sort_name: Seq<char>,
    pub texts: Seq<Seq<char>>,
    pub words: Seq<Seq<Seq<char>>>,
    pub hidden: bool,
}

impl View for IndexEntry {
    type V = IndexView;

    open spec fn view(&self) -> IndexView {
        IndexView {
            sort_name: self.sort_name@,
            texts: views(self.texts@),
            words: self.words@.map_values(|w: Vec<Vec<char>>| views(w@)),
            hidden: self.hidden,
        }
    }
}

/// The index entry of a row with the given ordering name and raw text fields.
pub open spec fn entry_of(sort_name: Seq<char>, raw: Seq<Seq<char>>, hidden: bool) -> IndexView {
    IndexView {
        sort_name,
        texts: raw.map_values(|t: Seq<char>| fold(t)),
        words: raw.map_values(|t: Seq<char>| tokens(fold(t))),
        hidden,
    }
}

/// The index as the contracts see it.
pub open spec fn entry_views(es: Seq<IndexEntry>) -> Seq<IndexView> {
    es.map_values(|e: IndexEntry| e@)
}

/// Builds the index entry of a row: folds each field and splits it into words.
pub fn build_entry(sort_name: Vec<char>, raw: &Vec<Vec<char>>, hidden: bool) -> (r: IndexEntry)
    ensures
        r@ == entry_of(sort_name@, views(raw@), hidden),
{
    let mut texts: Vec<Vec<char>> = Vec::new();
    let mut words: Vec<Vec<Vec<char>>> = Vec::new();
    let mut i: usize = 0;
    while i < raw.len()
        invariant
            i <= raw@.len(),
            views(texts@) == views(raw@).take(i as int).map_values(|t: Seq<char>| fold(t)),
            words@.map_values(|w: Vec<Vec<char>>| views(w@)) == views(raw@).take(i as int).map_values(
                |t: Seq<char>| tokens(fold(t)),
            ),
        decreases raw.len() - i,
    {
        let t = fold_chars(&raw[i]);
        let w = tokenize(&t);
        let ghost old_t = views(texts@);
        let ghost old_w = words@.map_values(|w: Vec<Vec<char>>| views(w@));
        let ghost tv = t@;
        let ghost wv = views(w@);
        texts.push(t);
        words.push(w);
        proof {
            let rv = views(raw@);
            assert(rv[i as int] == raw@[i as int]@);
            assert(views(texts@) =~= old_t.push(tv));
            assert(words@.map_values(|w: Vec<Vec<char>>| views(w@)) =~= old_w.push(wv));
            assert(rv.take(i as int + 1).map_values(|t: Seq<char>| fold(t)) =~= rv.take(i as int).map_values(
                |t: Seq<char>| fold(t),
            ).push(fold(rv[i as int])));
            assert(rv.take(i as int + 1).map_values(|t: Seq<char>| tokens(fold(t))) =~= rv.take(
                i as int,
            ).map_values(|t: Seq<char>| tokens(fold(t))).push(tokens(fold(rv[i as int]))));
        }
        i += 1;
    }
    proof {
        assert(views(raw@).take(raw@.len() as int) =~= views(raw@));
    }
    IndexEntry { sort_name, texts, words, hidden }
}

} // verus!
