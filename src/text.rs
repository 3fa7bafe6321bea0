//! Character-level helpers shared by the search engine and the formatters:
//! ASCII case folding, whitespace trimming, substring tests and the
//! sanitising of full-text queries.
use vstd::prelude::*;

verus! {

/// Relies on `String::push`: the character is appended at the end.
pub assume_specification[ String::push ](s: &mut String, ch: char)
    ensures
        final(s)@ == old(s)@.push(ch),
;

/// ASCII lower-casing, the only case folding the storage engine applies.
pub open spec fn fold_char(c: char) -> char {
    if 'A' <= c && c <= 'Z' {
        ((c as u32 + 32) as u8) as char
    } else {
        c
    }
}

pub open spec fn fold(s: Seq<char>) -> Seq<char> {
    s.map_values(|c: char| fold_char(c))
}

/// The characters `char::is_whitespace` accepts (Unicode White_Space).
pub open spec fn is_ws(c: char) -> bool {
    let u = c as u32;
    (0x09 <= u && u <= 0x0d) || u == 0x20 || u == 0x85 || u == 0xa0 || u == 0x1680 || (0x2000
        <= u && u <= 0x200a) || u == 0x2028 || u == 0x2029 || u == 0x202f || u == 0x205f || u
        == 0x3000
}

/// Index of the first non-whitespace character at or after `i` (or the length).
pub open spec fn first_non_ws(s: Seq<char>, i: int) -> int
    decreases s.len() - i,
{
    if i >= s.len() || i < 0 {
        s.len() as int
    } else if !is_ws(s[i]) {
        i
    } else {
        first_non_ws(s, i + 1)
    }
}

/// One past the last non-whitespace character before `j` (or 0).
pub open spec fn end_non_ws(s: Seq<char>, j: int) -> int
    decreases j,
{
    if j <= 0 || j > s.len() {
        0
    } else if !is_ws(s[j - 1]) {
        j
    } else {
        end_non_ws(s, j - 1)
    }
}

/// `s` without leading and trailing whitespace, as `str::trim` gives it.
pub open spec fn trim(s: Seq<char>) -> Seq<char> {
    let a = first_non_ws(s, 0);
    let b = end_non_ws(s, s.len() as int);
    if a < b {
        s.subrange(a, b)
    } else {
        Seq::empty()
    }
}

pub open spec fn occurs_at(hay: Seq<char>, needle: Seq<char>, p: int) -> bool {
    0 <= p && p + needle.len() <= hay.len() && hay.subrange(p, p + needle.len()) == needle
}

/// `needle` occurs in `hay` as a contiguous run.
pub open spec fn contains_run(hay: Seq<char>, needle: Seq<char>) -> bool {
    exists|p: int| occurs_at(hay, needle, p)
}

/// The query text with wildcards (`*`, `%`) dropped and quotes doubled.
pub open spec fn escape_phrase(s: Seq<char>) -> Seq<char>
    decreases s.len(),
{
    if s.len() == 0 {
        s
    } else {
        let rest = escape_phrase(s.drop_last());
        let c = s.last();
        if c == '*' || c == '%' {
            rest
        } else if c == '"' {
            rest.push('"').push('"')
        } else {
            rest.push(c)
        }
    }
}

/// The full-text phrase built from a raw query: empty when the query is blank
/// or holds only wildcards, else the cleaned text wrapped in quotes.
pub open spec fn fts_phrase(q: Seq<char>) -> Seq<char> {
    let t = trim(q);
    if t.len() == 0 || t == seq!['*'] || t == seq!['%'] {
        Seq::empty()
    } else {
        let c = trim(escape_phrase(t));
        if c.len() == 0 {
            Seq::empty()
        } else {
            seq!['"'] + c + seq!['"']
        }
    }
}

pub fn fold_char_exec(c: char) -> (r: char)
    ensures
        r == fold_char(c),
{
    if 'A' <= c && c <= 'Z' {
        let b: u32 = c as u32;
        ((b + 32) as u8) as char
    } else {
        c
    }
}

pub fn is_ws_exec(c: char) -> (r: bool)
    ensures
        r == is_ws(c),
{
    let u = c as u32;
    (0x09 <= u && u <= 0x0d) || u == 0x20 || u == 0x85 || u == 0xa0 || u == 0x1680 || (0x2000
        <= u && u <= 0x200a) || u == 0x2028 || u == 0x2029 || u == 0x202f || u == 0x205f || u
        == 0x3000
}

/// The characters of `s`, one per element.
pub fn chars_of(s: &str) -> (r: Vec<char>)
    ensures
        r@ == s@,
{
    let n = s.unicode_len();
    let mut r: Vec<char> = Vec::new();
    let mut i: usize = 0;
    while i < n
        invariant
            n == s@.len(),
            i <= n,
            r@ == s@.take(i as int),
        decreases n - i,
    {
        let c = s.get_char(i);
        r.push(c);
        proof {
            assert(s@.take(i as int + 1) =~= s@.take(i as int).push(c));
        }
        i += 1;
    }
    proof {
        assert(s@.take(n as int) =~= s@);
    }
    r
}

/// A string holding the characters of `v`.
pub fn string_of(v: &Vec<char>) -> (r: String)
    ensures
        r@ == v@,
{
    let mut r = String::new();
    let mut i: usize = 0;
    while i < v.len()
        invariant
            i <= v@.len(),
            r@ == v@.take(i as int),
        decreases v.len() - i,
    {
        r.push(v[i]);
        proof {
            assert(v@.take(i as int + 1) =~= v@.take(i as int).push(v@[i as int]));
        }
        i += 1;
    }
    proof {
        assert(v@.take(v@.len() as int) =~= v@);
    }
    r
}

pub fn fold_chars(v: &Vec<char>) -> (r: Vec<char>)
    ensures
        r@ == fold(v@),
{
    let mut r: Vec<char> = Vec::new();
    let mut i: usize = 0;
    while i < v.len()
        invariant
            i <= v@.len(),
            r@ == fold(v@.take(i as int)),
        decreases v.len() - i,
    {
        let c = fold_char_exec(v[i]);
        r.push(c);
        proof {
            assert(fold(v@.take(i as int + 1)) =~= fold(v@.take(i as int)).push(c));
        }
        i += 1;
    }
    proof {
        assert(v@.take(v@.len() as int) =~= v@);
    }
    r
}

/// `s` with leading and trailing whitespace removed.
pub fn trim_chars(s: &Vec<char>) -> (r: Vec<char>)
    ensures
        r@ == trim(s@),
{
    let n = s.len();
    let mut a: usize = 0;
    while a < n && is_ws_exec(s[a])
        invariant
            n == s@.len(),
            a <= n,
            first_non_ws(s@, 0) == first_non_ws(s@, a as int),
        decreases n - a,
    {
        a += 1;
    }
    let mut b: usize = n;
    while b > 0 && is_ws_exec(s[b - 1])
        invariant
            n == s@.len(),
            b <= n,
            end_non_ws(s@, n as int) == end_non_ws(s@, b as int),
        decreases b,
    {
        b -= 1;
    }
    let mut r: Vec<char> = Vec::new();
    if a < b {
        let mut i: usize = a;
        while i < b
            invariant
                a <= i <= b <= n,
                n == s@.len(),
                r@ == s@.subrange(a as int, i as int),
            decreases b - i,
        {
            r.push(s[i]);
            proof {
                assert(s@.subrange(a as int, i as int + 1) =~= s@.subrange(a as int, i as int).push(
                    s@[i as int],
                ));
            }
            i += 1;
        }
    }
    r
}

/// Whether `needle` occurs in `hay` at position `p`.
pub fn occurs_at_exec(hay: &Vec<char>, needle: &Vec<char>, p: usize) -> (r: bool)
    ensures
        r == occurs_at(hay@, needle@, p as int),
{
    if p > hay.len() || needle.len() > hay.len() - p {
        return false;
    }
    let hl = hay.len();
    let mut k: usize = 0;
    while k < needle.len()
        invariant
            hl == hay@.len(),
            p + needle@.len() <= hay@.len(),
            k <= needle@.len(),
            forall|j: int| 0 <= j < k ==> hay@[p + j] == needle@[j],
        decreases needle.len() - k,
    {
        if hay[p + k] != needle[k] {
            proof {
                assert(hay@.subrange(p as int, p + needle@.len())[k as int] != needle@[k as int]);
            }
            return false;
        }
        k += 1;
    }
    proof {
        assert(hay@.subrange(p as int, p + needle@.len()) =~= needle@);
    }
    true
}

/// Whether `needle` occurs anywhere in `hay`.
pub fn contains_run_exec(hay: &Vec<char>, needle: &Vec<char>) -> (r: bool)
    ensures
        r == contains_run(hay@, needle@),
{
    if needle.len() > hay.len() {
        return false;
    }
    let last = hay.len() - needle.len();
    let mut p: usize = 0;
    loop
        invariant
            last == hay@.len() - needle@.len(),
            p <= last,
            forall|q: int| 0 <= q < p ==> !occurs_at(hay@, needle@, q),
        decreases last - p,
    {
        if occurs_at_exec(hay, needle, p) {
            return true;
        }
        if p == last {
            proof {
                assert forall|q: int| #![trigger occurs_at(hay@, needle@, q)] !occurs_at(hay@, needle@, q) by {
                    if 0 <= q && q < p {
                    }
                }
            }
            return false;
        }
        p += 1;
    }
}

/// The query handed to the full-text stage: trimmed, wildcards stripped,
/// embedded quotes doubled, wrapped in quotes so that it is matched as one
/// phrase; empty when nothing searchable is left.
pub fn process_fts_query(query: &str) -> (r: String)
    ensures
        r@ == fts_phrase(query@),
{
    let q = chars_of(query);
    let t = trim_chars(&q);
    if t.len() == 0 || (t.len() == 1 && (t[0] == '*' || t[0] == '%')) {
        proof {
            if t@.len() == 1 && t@[0] == '*' {
                assert(t@ =~= seq!['*']);
            }
            if t@.len() == 1 && t@[0] == '%' {
                assert(t@ =~= seq!['%']);
            }
        }
        return String::new();
    }
    proof {
        assert(t@ != seq!['*']);
        assert(t@ != seq!['%']);
    }
    let mut e: Vec<char> = Vec::new();
    let mut i: usize = 0;
    while i < t.len()
        invariant
            i <= t@.len(),
            e@ == escape_phrase(t@.take(i as int)),
        decreases t.len() - i,
    {
        let c = t[i];
        proof {
            assert(t@.take(i as int + 1).drop_last() =~= t@.take(i as int));
        }
        if c == '*' || c == '%' {
        } else if c == '"' {
            e.push('"');
            e.push('"');
        } else {
            e.push(c);
        }
        i += 1;
    }
    proof {
        assert(t@.take(t@.len() as int) =~= t@);
    }
    let c = trim_chars(&e);
    if c.len() == 0 {
        return String::new();
    }
    let mut out: Vec<char> = Vec::new();
    out.push('"');
    let mut k: usize = 0;
    while k < c.len()
        invariant
            k <= c@.len(),
            out@ == seq!['"'] + c@.take(k as int),
        decreases c.len() - k,
    {
        out.push(c[k]);
        proof {
            assert(c@.take(k as int + 1) =~= c@.take(k as int).push(c@[k as int]));
            assert(seq!['"'] + c@.take(k as int + 1) =~= (seq!['"'] + c@.take(k as int)).push(
                c@[k as int],
            ));
        }
        k += 1;
    }
    out.push('"');
    proof {
        assert(c@.take(c@.len() as int) =~= c@);
    }
    string_of(&out)
}

/// Whether two strings hold the same characters.
pub fn str_eq(a: &str, b: &str) -> (r: bool)
    ensures
        r == (a@ == b@),
{
    let x = chars_of(a);
    let y = chars_of(b);
    if x.len() != y.len() {
        return false;
    }
    let mut i: usize = 0;
    while i < x.len()
        invariant
            x@ == a@,
            y@ == b@,
            x@.len() == y@.len(),
            i <= x@.len(),
            forall|k: int| 0 <= k < i ==> x@[k] == y@[k],
        decreases x.len() - i,
    {
        if x[i] != y[i] {
            proof {
                assert(x@[i as int] != y@[i as int]);
                assert(x@ != y@);
            }
            return false;
        }
        i += 1;
    }
    proof {
        assert(x@ =~= y@);
    }
    true
}

pub open spec fn digit_char(d: nat) -> char {
    ((d + 48) as u8) as char
}

/// The decimal digits of `n`, most significant first.
pub open spec fn digits(n: nat) -> Seq<char>
    decreases n,
{
    if n < 10 {
        seq![digit_char(n)]
    } else {
        digits(n / 10).push(digit_char(n % 10))
    }
}

/// `x` written in decimal, with a leading `-` when negative.
pub open spec fn decimal(x: int) -> Seq<char> {
    if x < 0 {
        seq!['-'] + digits((-x) as nat)
    } else {
        digits(x as nat)
    }
}

fn digits_exec(n: u64) -> (r: Vec<char>)
    ensures
        r@ == digits(n as nat),
    decreases n,
{
    let d: u8 = (n % 10) as u8;
    let c = (d + 48) as char;
    if n < 10 {
        let mut v: Vec<char> = Vec::new();
        v.push(c);
        proof {
            assert(v@ =~= seq![digit_char(n as nat)]);
        }
        v
    } else {
        let mut v = digits_exec(n / 10);
        v.push(c);
        v
    }
}

/// `x` in decimal, as `to_string` writes an integer.
pub fn decimal_string(x: i64) -> (r: String)
    ensures
        r@ == decimal(x as int),
{
    if x < 0 {
        let m: u64 = (-(x as i128)) as u64;
        let d = digits_exec(m);
        let mut v: Vec<char> = Vec::new();
        v.push('-');
        let mut i: usize = 0;
        while i < d.len()
            invariant
                i <= d@.len(),
                v@ == seq!['-'] + d@.take(i as int),
            decreases d.len() - i,
        {
            v.push(d[i]);
            proof {
                assert(v@ =~= seq!['-'] + d@.take(i as int + 1));
            }
            i += 1;
        }
        proof {
            assert(d@.take(d@.len() as int) =~= d@);
        }
        string_of(&v)
    } else {
        let d = digits_exec(x as u64);
        string_of(&d)
    }
}

/// `a` followed by `b`.
pub fn concat(a: &str, b: &str) -> (r: String)
    ensures
        r@ == a@ + b@,
{
    let mut r = String::from_str(a);
    r.append(b);
    r
}

/// `n` in decimal.
pub fn unsigned_string(n: u64) -> (r: String)
    ensures
        r@ == digits(n as nat),
{
    let d = digits_exec(n);
    string_of(&d)
}

} // verus!
