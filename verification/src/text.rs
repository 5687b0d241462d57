//! Character-level text utilities shared by the rest of the library:
//! substring search, Unicode whitespace trimming, joining and the
//! conversions between `str`/`String` and vectors of characters.
use vstd::prelude::*;
use vstd::relations::{sorted_by, total_ordering};
use vstd::seq_lib::{lemma_sorted_unique, to_multiset_insert};

verus! {

// ---------------------------------------------------------------------------
// Conversions
// ---------------------------------------------------------------------------

/// The characters of `s`, in order.
pub fn chars_of(s: &str) -> (res: Vec<char>)
    ensures
        res@ == s@,
{
    let mut res: Vec<char> = Vec::new();
    for c in it: s.chars()
        invariant
            res@ == it.seq().take(it.index() as int),
            it.seq() == s@,
    {
        res.push(c);
    }
    res
}

/// Collects characters into a `String` (`FromIterator<char>` for `String`):
/// the string holds exactly the given characters, in order.
#[verifier::external_body]
pub(crate) fn string_from_chars(v: &Vec<char>) -> (res: String)
    ensures
        res@ == v@,
{
    v.iter().collect::<String>()
}

/// A fresh `String` holding the characters of `s`.
pub fn to_owned_string(s: &str) -> (res: String)
    ensures
        res@ == s@,
{
    s.to_owned()
}

/// `a` followed by `b`, as a new string.
pub fn concat2(a: &str, b: &str) -> (res: String)
    ensures
        res@ == a@ + b@,
{
    let mut r = a.to_owned();
    r.append(b);
    r
}

/// `a`, `b` and `c` one after the other, as a new string.
pub fn concat3(a: &str, b: &str, c: &str) -> (res: String)
    ensures
        res@ == a@ + b@ + c@,
{
    let mut r = a.to_owned();
    r.append(b);
    r.append(c);
    r
}

/// Whether two texts are equal.
pub fn str_eq(a: &str, b: &str) -> (res: bool)
    ensures
        res == (a@ == b@),
{
    let x = a.to_owned();
    let y = b.to_owned();
    x == y
}

/// A copy of a string.
pub fn copy_string(s: &String) -> (r: String)
    ensures
        r@ == s@,
{
    s.clone()
}

/// The views of a sequence of strings.
pub open spec fn strings_view(v: Seq<String>) -> Seq<Seq<char>> {
    v.map_values(|s: String| s@)
}

/// A copy of a vector of strings.
pub fn copy_strings(v: &Vec<String>) -> (r: Vec<String>)
    ensures
        strings_view(r@) == strings_view(v@),
{
    let mut r: Vec<String> = Vec::new();
    let mut i: usize = 0;
    while i < v.len()
        invariant
            i <= v.len(),
            r@.len() == i,
            forall|k: int| 0 <= k < i ==> (#[trigger] r@[k])@ == v@[k]@,
        decreases v.len() - i,
    {
        r.push(copy_string(&v[i]));
        i = i + 1;
    }
    assert(strings_view(r@) =~= strings_view(v@));
    r
}

/// The view of an optional string.
pub open spec fn opt_str_view(o: Option<String>) -> Option<Seq<char>> {
    match o {
        Some(s) => Some(s@),
        None => None,
    }
}

/// A copy of an optional string.
pub fn copy_opt_string(o: &Option<String>) -> (r: Option<String>)
    ensures
        opt_str_view(r) == opt_str_view(*o),
{
    match o {
        Some(s) => Some(copy_string(s)),
        None => None,
    }
}

/// The texts of `parts` with `sep` between each two of them.
pub open spec fn join(parts: Seq<Seq<char>>, sep: Seq<char>) -> Seq<char>
    decreases parts.len(),
{
    if parts.len() == 0 {
        Seq::empty()
    } else if parts.len() == 1 {
        parts[0]
    } else {
        join(parts.drop_last(), sep) + sep + parts.last()
    }
}

/// Joining two non-empty lists of texts one after the other puts one
/// separator between the two joined lists; a single text is joined as
/// itself.
pub proof fn lemma_join_concat(a: Seq<Seq<char>>, b: Seq<Seq<char>>, sep: Seq<char>)
    requires
        a.len() > 0,
        b.len() > 0,
    ensures
        join(a + b, sep) == join(a, sep) + sep + join(b, sep),
        join(seq![b[0]], sep) == b[0],
    decreases b.len(),
{
    assert(seq![b[0]].len() == 1);
    if b.len() == 1 {
        assert((a + b).drop_last() =~= a);
        assert((a + b).last() == b[0]);
    } else {
        assert((a + b).drop_last() =~= a + b.drop_last());
        lemma_join_concat(a, b.drop_last(), sep);
        assert((a + b).last() == b.last());
        assert(join(a, sep) + sep + join(b.drop_last(), sep) + sep + b.last() =~= join(a, sep) + sep
            + (join(b.drop_last(), sep) + sep + b.last()));
    }
}

/// The strings of `parts` with `sep` between each two of them.
pub fn join_strings(parts: &Vec<String>, sep: &str) -> (res: String)
    ensures
        res@ == join(strings_view(parts@), sep@),
{
    let mut res = String::new();
    let mut i: usize = 0;
    while i < parts.len()
        invariant
            i <= parts.len(),
            res@ == join(strings_view(parts@).take(i as int), sep@),
        decreases parts.len() - i,
    {
        let ghost prefix = strings_view(parts@).take(i + 1);
        assert(prefix.drop_last() =~= strings_view(parts@).take(i as int));
        if i > 0 {
            res.append(sep);
        } else {
            assert(prefix.len() == 1);
        }
        res.append(parts[i].as_str());
        i = i + 1;
    }
    assert(strings_view(parts@).take(i as int) =~= strings_view(parts@));
    res
}

// ---------------------------------------------------------------------------
// Substring search
// ---------------------------------------------------------------------------

/// `p` occurs in `s` starting at position `i`.
pub open spec fn occurs_at(s: Seq<char>, p: Seq<char>, i: int) -> bool {
    0 <= i && i + p.len() <= s.len() && s.subrange(i, i + p.len()) == p
}

/// `p` occurs somewhere in `s` (the empty pattern occurs in every text).
pub open spec fn seq_contains(s: Seq<char>, p: Seq<char>) -> bool {
    exists|i: int| occurs_at(s, p, i)
}

/// Whether `p` occurs in `s` at position `i`.
pub fn occurs_at_exec(s: &Vec<char>, p: &Vec<char>, i: usize) -> (res: bool)
    ensures
        res == occurs_at(s@, p@, i as int),
{
    if i > s.len() || p.len() > s.len() - i {
        return false;
    }
    let mut k: usize = 0;
    while k < p.len()
        invariant
            i + p.len() <= s.len(),
            k <= p.len(),
            forall|j: int| 0 <= j < k ==> s@[i + j] == p@[j],
        decreases p.len() - k,
    {
        if s[i + k] != p[k] {
            assert(s@.subrange(i as int, i + p.len())[k as int] != p@[k as int]);
            return false;
        }
        k = k + 1;
    }
    assert(s@.subrange(i as int, i + p.len()) =~= p@);
    true
}

/// Whether `p` occurs anywhere in `s`.
pub fn contains_chars(s: &Vec<char>, p: &Vec<char>) -> (res: bool)
    ensures
        res == seq_contains(s@, p@),
{
    if p.len() > s.len() {
        assert forall|i: int| !occurs_at(s@, p@, i) by {}
        return false;
    }
    if p.len() == 0 {
        assert(occurs_at(s@, p@, 0)) by {
            assert(s@.subrange(0, 0) =~= p@);
        }
        return true;
    }
    let last = s.len() - p.len();
    let mut i: usize = 0;
    while i <= last
        invariant
            last == s.len() - p.len(),
            0 < p.len() <= s.len(),
            i <= last + 1,
            forall|j: int| 0 <= j < i ==> !occurs_at(s@, p@, j),
        decreases last + 1 - i,
    {
        if occurs_at_exec(s, p, i) {
            return true;
        }
        i = i + 1;
    }
    assert forall|j: int| !occurs_at(s@, p@, j) by {
        if 0 <= j < i {
        }
    }
    false
}

/// Whether the text `s` contains the text `p`.
pub fn str_contains(s: &str, p: &str) -> (res: bool)
    ensures
        res == seq_contains(s@, p@),
{
    let sv = chars_of(s);
    let pv = chars_of(p);
    contains_chars(&sv, &pv)
}

/// An occurrence inside an occurrence: `p` at `i` in `b`, and `b` at `j`
/// in `a`, put `p` at `i + j` in `a`.
pub proof fn lemma_occurs_shift(a: Seq<char>, b: Seq<char>, p: Seq<char>, i: int, j: int)
    requires
        occurs_at(b, p, i),
        occurs_at(a, b, j),
    ensures
        occurs_at(a, p, i + j),
{
    assert forall|k: int| 0 <= k < p.len() implies a.subrange(i + j, i + j + p.len())[k]
        == p[k] by {
        assert(b[i + k] == a.subrange(j, j + b.len())[i + k]);
        assert(b.subrange(i, i + p.len())[k] == b[i + k]);
    }
    assert(a.subrange(i + j, i + j + p.len()) =~= p);
}

/// Occurrence is preserved when the text grows around it.
pub proof fn lemma_contains_transitive(a: Seq<char>, b: Seq<char>, p: Seq<char>)
    requires
        seq_contains(b, p),
        seq_contains(a, b),
    ensures
        seq_contains(a, p),
{
    let i = choose|i: int| occurs_at(b, p, i);
    let j = choose|j: int| occurs_at(a, b, j);
    lemma_occurs_shift(a, b, p, i, j);
}

/// A text occurs in the middle of a concatenation.
pub proof fn lemma_occurs_in_middle(p: Seq<char>, m: Seq<char>, q: Seq<char>)
    ensures
        occurs_at(p + m + q, m, p.len() as int),
{
    assert((p + m + q).subrange(p.len() as int, (p.len() + m.len()) as int) =~= m);
}

// ---------------------------------------------------------------------------
// Whitespace and trimming
// ---------------------------------------------------------------------------

/// Unicode `White_Space` (the property that `char::is_whitespace` and
/// `str::trim` use).
pub open spec fn is_ws(c: char) -> bool {
    ||| ('\u{9}' <= c && c <= '\u{d}')
    ||| c == ' '
    ||| c == '\u{85}'
    ||| c == '\u{a0}'
    ||| c == '\u{1680}'
    ||| ('\u{2000}' <= c && c <= '\u{200a}')
    ||| c == '\u{2028}'
    ||| c == '\u{2029}'
    ||| c == '\u{202f}'
    ||| c == '\u{205f}'
    ||| c == '\u{3000}'
}

/// Whether `c` is Unicode whitespace.
pub fn is_ws_exec(c: char) -> (res: bool)
    ensures
        res == is_ws(c),
{
    ('\u{9}' <= c && c <= '\u{d}') || c == ' ' || c == '\u{85}' || c == '\u{a0}' || c
        == '\u{1680}' || ('\u{2000}' <= c && c <= '\u{200a}') || c == '\u{2028}' || c
        == '\u{2029}' || c == '\u{202f}' || c == '\u{205f}' || c == '\u{3000}'
}

/// `s` without its leading whitespace.
pub open spec fn trim_start(s: Seq<char>) -> Seq<char>
    decreases s.len(),
{
    if s.len() > 0 && is_ws(s[0]) {
        trim_start(s.drop_first())
    } else {
        s
    }
}

/// `s` without its trailing whitespace.
pub open spec fn trim_end(s: Seq<char>) -> Seq<char>
    decreases s.len(),
{
    if s.len() > 0 && is_ws(s.last()) {
        trim_end(s.drop_last())
    } else {
        s
    }
}

/// `s` without leading and trailing whitespace (`str::trim`).
pub open spec fn trim(s: Seq<char>) -> Seq<char> {
    trim_end(trim_start(s))
}

proof fn lemma_trim_start_skip(s: Seq<char>, i: int)
    requires
        0 <= i <= s.len(),
        forall|j: int| 0 <= j < i ==> is_ws(s[j]),
    ensures
        trim_start(s) == trim_start(s.subrange(i, s.len() as int)),
    decreases i,
{
    if i > 0 {
        assert(s.drop_first() =~= s.subrange(1, s.len() as int));
        lemma_trim_start_skip(s.drop_first(), i - 1);
        assert(s.drop_first().subrange(i - 1, s.drop_first().len() as int) =~= s.subrange(
            i,
            s.len() as int,
        ));
    } else {
        assert(s.subrange(0, s.len() as int) =~= s);
    }
}

proof fn lemma_trim_end_cut(s: Seq<char>, k: int)
    requires
        0 <= k <= s.len(),
        forall|j: int| k <= j < s.len() ==> is_ws(s[j]),
    ensures
        trim_end(s) == trim_end(s.subrange(0, k)),
    decreases s.len() - k,
{
    if k < s.len() {
        assert(s.drop_last() =~= s.subrange(0, s.len() - 1));
        lemma_trim_end_cut(s.drop_last(), k);
        assert(s.drop_last().subrange(0, k) =~= s.subrange(0, k));
    } else {
        assert(s.subrange(0, k) =~= s);
    }
}

/// The characters of `s` without leading and trailing whitespace.
pub fn trim_chars(s: &Vec<char>) -> (res: Vec<char>)
    ensures
        res@ == trim(s@),
{
    let n = s.len();
    let mut lo: usize = 0;
    while lo < n && is_ws_exec(s[lo])
        invariant
            n == s.len(),
            lo <= n,
            forall|j: int| 0 <= j < lo ==> is_ws(s@[j]),
        decreases n - lo,
    {
        lo = lo + 1;
    }
    proof {
        lemma_trim_start_skip(s@, lo as int);
    }
    let ghost rest = s@.subrange(lo as int, n as int);
    assert(trim_start(rest) == rest);
    let mut hi: usize = n;
    while hi > lo && is_ws_exec(s[hi - 1])
        invariant
            n == s.len(),
            lo <= hi <= n,
            forall|j: int| hi <= j < n ==> is_ws(s@[j]),
        decreases hi,
    {
        hi = hi - 1;
    }
    proof {
        lemma_trim_end_cut(rest, hi - lo);
        assert(rest.subrange(0, hi - lo) =~= s@.subrange(lo as int, hi as int));
    }
    let mut res: Vec<char> = Vec::new();
    let mut k: usize = lo;
    while k < hi
        invariant
            n == s.len(),
            lo <= k <= hi <= n,
            res@ =~= s@.subrange(lo as int, k as int),
        decreases hi - k,
    {
        res.push(s[k]);
        k = k + 1;
    }
    let ghost t = s@.subrange(lo as int, hi as int);
    assert(trim_end(t) == t);
    res
}

/// Every character of `s` is whitespace.
pub open spec fn all_ws(s: Seq<char>) -> bool {
    forall|i: int| 0 <= i < s.len() ==> is_ws(s[i])
}

proof fn lemma_trim_start_ws_prefix(x: Seq<char>, r: Seq<char>)
    requires
        all_ws(x),
    ensures
        trim_start(x + r) == trim_start(r),
{
    assert forall|j: int| 0 <= j < x.len() implies is_ws((x + r)[j]) by {}
    lemma_trim_start_skip(x + r, x.len() as int);
    assert((x + r).subrange(x.len() as int, (x + r).len() as int) =~= r);
}

proof fn lemma_trim_start_concat(x: Seq<char>, r: Seq<char>)
    requires
        !all_ws(x),
    ensures
        trim_start(x + r) == trim_start(x) + r,
    decreases x.len(),
{
    assert((x + r)[0] == x[0]);
    if is_ws(x[0]) {
        let i = choose|i: int| 0 <= i < x.len() && !is_ws(x[i]);
        assert(x.drop_first()[i - 1] == x[i]);
        assert((x + r).drop_first() =~= x.drop_first() + r);
        lemma_trim_start_concat(x.drop_first(), r);
    }
}

proof fn lemma_trim_end_ws_suffix(x: Seq<char>, r: Seq<char>)
    requires
        all_ws(r),
    ensures
        trim_end(x + r) == trim_end(x),
{
    assert forall|j: int| x.len() <= j < (x + r).len() implies is_ws((x + r)[j]) by {
        assert((x + r)[j] == r[j - x.len()]);
    }
    lemma_trim_end_cut(x + r, x.len() as int);
    assert((x + r).subrange(0, x.len() as int) =~= x);
}

proof fn lemma_trim_end_concat(x: Seq<char>, r: Seq<char>)
    requires
        !all_ws(r),
    ensures
        trim_end(x + r) == x + trim_end(r),
    decreases r.len(),
{
    assert((x + r).last() == r.last());
    if is_ws(r.last()) {
        let i = choose|i: int| 0 <= i < r.len() && !is_ws(r[i]);
        assert(r.drop_last()[i] == r[i]);
        assert((x + r).drop_last() =~= x + r.drop_last());
        lemma_trim_end_concat(x, r.drop_last());
    }
}

proof fn lemma_trim_start_split(s: Seq<char>) -> (w: Seq<char>)
    ensures
        s == w + trim_start(s),
        all_ws(w),
        trim_start(s).len() > 0 ==> !is_ws(trim_start(s)[0]),
        !all_ws(s) ==> !all_ws(trim_start(s)),
    decreases s.len(),
{
    if s.len() > 0 && is_ws(s[0]) {
        let w1 = lemma_trim_start_split(s.drop_first());
        let w = seq![s[0]] + w1;
        let t = trim_start(s.drop_first());
        assert(s =~= seq![s[0]] + s.drop_first());
        assert(seq![s[0]] + (w1 + t) =~= w + t);
        if !all_ws(s) {
            let i = choose|i: int| 0 <= i < s.len() && !is_ws(s[i]);
            assert(s.drop_first()[i - 1] == s[i]);
        }
        assert forall|i: int| 0 <= i < w.len() implies is_ws(w[i]) by {
            if i > 0 {
                assert(w[i] == w1[i - 1]);
            }
        }
        w
    } else {
        assert(s =~= seq![] + s);
        seq![]
    }
}

proof fn lemma_trim_end_split(s: Seq<char>) -> (w: Seq<char>)
    ensures
        s == trim_end(s) + w,
        all_ws(w),
        trim_end(s).len() > 0 ==> !is_ws(trim_end(s).last()),
        !all_ws(s) ==> !all_ws(trim_end(s)),
    decreases s.len(),
{
    if s.len() > 0 && is_ws(s.last()) {
        let w1 = lemma_trim_end_split(s.drop_last());
        let w = w1.push(s.last());
        let t = trim_end(s.drop_last());
        assert(s =~= s.drop_last().push(s.last()));
        assert((t + w1).push(s.last()) =~= t + w);
        if !all_ws(s) {
            let i = choose|i: int| 0 <= i < s.len() && !is_ws(s[i]);
            assert(s.drop_last()[i] == s[i]);
        }
        assert forall|i: int| 0 <= i < w.len() implies is_ws(w[i]) by {
            if i < w1.len() {
                assert(w[i] == w1[i]);
            }
        }
        w
    } else {
        assert(s =~= s + seq![]);
        seq![]
    }
}

/// Trimming cuts whitespace off both ends and nothing else: the text is
/// some whitespace, the trimmed text and some whitespace, and the trimmed
/// text is empty or begins and ends with a character that is not
/// whitespace.
pub proof fn lemma_trim_shape(s: Seq<char>) -> (r: (Seq<char>, Seq<char>))
    ensures
        s == r.0 + trim(s) + r.1,
        all_ws(r.0),
        all_ws(r.1),
        trim(s).len() > 0 ==> !is_ws(trim(s)[0]) && !is_ws(trim(s).last()),
{
    let w1 = lemma_trim_start_split(s);
    let t = trim_start(s);
    let w2 = lemma_trim_end_split(t);
    let m = trim_end(t);
    assert(s =~= w1 + m + w2);
    if m.len() > 0 {
        assert(m[0] == t[0]);
    }
    (w1, w2)
}

/// A text of whitespace trims to nothing.
pub proof fn lemma_trim_all_ws(s: Seq<char>)
    requires
        all_ws(s),
    ensures
        trim(s) == Seq::<char>::empty(),
{
    lemma_trim_start_ws_prefix(s, seq![]);
    assert(s + seq![] =~= s);
}

/// Trimming a longer text keeps the trimmed inner text: `trim(y)` occurs
/// in `trim(p + y + q)`, and when `p` and `q` are whitespace both are the
/// same.
pub proof fn lemma_trim_inner(p: Seq<char>, y: Seq<char>, q: Seq<char>)
    ensures
        seq_contains(trim(p + y + q), trim(y)),
        all_ws(p) && all_ws(q) ==> trim(p + y + q) == trim(y),
{
    let s = p + y + q;
    if all_ws(y) {
        lemma_trim_all_ws(y);
        assert(occurs_at(trim(s), trim(y), 0)) by {
            assert(trim(s).subrange(0, 0) =~= trim(y));
        }
        if all_ws(p) && all_ws(q) {
            assert forall|i: int| 0 <= i < s.len() implies is_ws(s[i]) by {
                if i < p.len() {
                    assert(s[i] == p[i]);
                } else if i < p.len() + y.len() {
                    assert(s[i] == y[i - p.len()]);
                } else {
                    assert(s[i] == q[i - p.len() - y.len()]);
                }
            }
            lemma_trim_all_ws(s);
        }
    } else {
        let (pp, qq) = lemma_trim_around(p, y, q);
        lemma_occurs_in_middle(pp, trim(y), qq);
        if all_ws(p) && all_ws(q) {
            assert(trim(s) =~= trim(y));
        }
    }
}

/// How trimming a longer text cuts around a trimmed inner text that is not
/// all whitespace: `trim(p + y + q)` is `trim(y)` with some text before
/// and after it, which is empty when `p` (or `q`) is whitespace, and
/// otherwise ends (begins) with whitespace or with the last (first)
/// character of `p` (`q`).
pub proof fn lemma_trim_around(p: Seq<char>, y: Seq<char>, q: Seq<char>) -> (r: (Seq<char>, Seq<char>))
    requires
        !all_ws(y),
    ensures
        trim(p + y + q) == r.0 + trim(y) + r.1,
        trim(y).len() > 0,
        r.0.len() > 0 ==> (is_ws(r.0.last()) || (p.len() > 0 && r.0.last() == p.last())),
        r.1.len() > 0 ==> (is_ws(r.1[0]) || (q.len() > 0 && r.1[0] == q[0])),
        all_ws(p) ==> r.0.len() == 0,
        all_ws(q) ==> r.1.len() == 0,
{
    let s = p + y + q;
    let w1 = lemma_trim_start_split(y);
    let t = trim_start(y);
    let w2 = lemma_trim_end_split(t);
    let m = trim_end(t);
    assert(m.len() > 0);
    assert(m[0] == t[0]);
    assert(y =~= w1 + m + w2);
    let r = w2 + q;
    assert(s =~= (p + w1) + (m + r));
    assert(trim_start(m + r) == m + r) by {
        assert((m + r)[0] == m[0]);
    }
    if all_ws(p) {
        assert(all_ws(p + w1)) by {
            assert forall|i: int| 0 <= i < (p + w1).len() implies is_ws((p + w1)[i]) by {
                if i >= p.len() {
                    assert((p + w1)[i] == w1[i - p.len()]);
                }
            }
        }
    }
    if all_ws(q) {
        assert(all_ws(r)) by {
            assert forall|i: int| 0 <= i < r.len() implies is_ws(r[i]) by {
                if i >= w2.len() {
                    assert(r[i] == q[i - w2.len()]);
                }
            }
        }
    }
    let pp: Seq<char> = if all_ws(p + w1) {
        lemma_trim_start_ws_prefix(p + w1, m + r);
        seq![]
    } else {
        lemma_trim_start_concat(p + w1, m + r);
        let v = lemma_trim_start_split(p + w1);
        let x = trim_start(p + w1);
        if x.len() > 0 {
            assert(x.last() == (v + x).last());
            if w1.len() > 0 {
                assert((p + w1).last() == w1.last());
            } else {
                assert(p + w1 =~= p);
            }
        }
        x
    };
    assert(trim_start(s) =~= (pp + m) + r);
    let qq: Seq<char> = if all_ws(r) {
        lemma_trim_end_ws_suffix(pp + m, r);
        assert(trim_end(pp + m) == pp + m) by {
            assert((pp + m).last() == m.last());
        }
        seq![]
    } else {
        lemma_trim_end_concat(pp + m, r);
        let v = lemma_trim_end_split(r);
        let x = trim_end(r);
        if x.len() > 0 {
            assert(x[0] == (x + v)[0]);
            if w2.len() > 0 {
                assert(r[0] == w2[0]);
            } else {
                assert(r =~= q);
            }
        }
        x
    };
    assert(trim(s) =~= pp + m + qq);
    (pp, qq)
}

// ---------------------------------------------------------------------------
// Case mapping (std, Unicode tables)
// ---------------------------------------------------------------------------

/// What `str::to_lowercase` returns for a text: its lowercase form under
/// Unicode's case mapping (which may depend on the neighbouring
/// characters, as for a final capital sigma).
pub uninterp spec fn unicode_lowercase(s: Seq<char>) -> Seq<char>;

/// The lowercase form of a text as `str::to_lowercase` gives it: on a text
/// made of ASCII characters, `A`..`Z` become `a`..`z` and every other
/// character stays as it is (the mapping that `str::to_ascii_lowercase`
/// documents, and that `to_lowercase` extends to non-ASCII characters);
/// on any other text, `unicode_lowercase`.
pub open spec fn lowercase(s: Seq<char>) -> Seq<char> {
    if ascii_text(s) {
        ascii_lower(s)
    } else {
        unicode_lowercase(s)
    }
}

/// `str::to_lowercase`. Of the Unicode case tables only the ASCII part is
/// restated (see `lowercase`); the result on other texts is named
/// `unicode_lowercase` of the input.
#[verifier::external_body]
pub(crate) fn to_lowercase_string(s: &str) -> (res: String)
    ensures
        res@ == (if ascii_text(s@) {
            ascii_lower(s@)
        } else {
            unicode_lowercase(s@)
        }),
{
    s.to_lowercase()
}

// ---------------------------------------------------------------------------
// ASCII case
// ---------------------------------------------------------------------------

/// Every character of `s` is ASCII.
pub open spec fn ascii_text(s: Seq<char>) -> bool {
    forall|i: int| 0 <= i < s.len() ==> s[i] <= '\u{7f}'
}

/// `A`..`Z` mapped to `a`..`z`; every other character unchanged.
pub open spec fn ascii_lower_char(c: char) -> char {
    if 'A' <= c && c <= 'Z' {
        ((c as u32) + 32) as char
    } else {
        c
    }
}

/// `a`..`z` mapped to `A`..`Z`; every other character unchanged.
pub open spec fn ascii_upper_char(c: char) -> char {
    if 'a' <= c && c <= 'z' {
        ((c as u32) - 32) as char
    } else {
        c
    }
}

/// `s` with its ASCII capitals made small (`str::to_ascii_lowercase`).
pub open spec fn ascii_lower(s: Seq<char>) -> Seq<char> {
    s.map_values(|c: char| ascii_lower_char(c))
}

/// `s` with its small ASCII letters made capitals (`str::to_ascii_uppercase`).
pub open spec fn ascii_upper(s: Seq<char>) -> Seq<char> {
    s.map_values(|c: char| ascii_upper_char(c))
}

/// ASCII case mapping works character by character, so it distributes over
/// concatenation.
pub proof fn lemma_ascii_lower_concat(a: Seq<char>, b: Seq<char>)
    ensures
        ascii_lower(a + b) == ascii_lower(a) + ascii_lower(b),
        ascii_text(a) && ascii_text(b) ==> ascii_text(a + b),
{
    assert(ascii_lower(a + b) =~= ascii_lower(a) + ascii_lower(b));
    if ascii_text(a) && ascii_text(b) {
        assert forall|i: int| 0 <= i < (a + b).len() implies (a + b)[i] <= '\u{7f}' by {
            if i < a.len() {
            } else {
                assert((a + b)[i] == b[i - a.len()]);
            }
        }
    }
}

/// Making the small letters capitals and then all capitals small gives the
/// same as making the capitals small; the text stays ASCII.
pub proof fn lemma_ascii_upper_lower(s: Seq<char>)
    requires
        ascii_text(s),
    ensures
        ascii_text(ascii_upper(s)),
        ascii_lower(ascii_upper(s)) == ascii_lower(s),
{
    assert forall|i: int| 0 <= i < s.len() implies ascii_upper(s)[i] <= '\u{7f}'
        && ascii_lower_char(ascii_upper(s)[i]) == ascii_lower_char(s[i]) by {
        let c = s[i];
        if 'a' <= c && c <= 'z' {
        }
    }
    assert(ascii_lower(ascii_upper(s)) =~= ascii_lower(s));
}

/// Whitespace is not an ASCII capital: lower-casing keeps a whitespace
/// text as it is.
pub proof fn lemma_ascii_lower_keeps_ws(s: Seq<char>)
    requires
        all_ws(s),
    ensures
        ascii_lower(s) == s,
{
    assert(ascii_lower(s) =~= s);
}

} // verus!

verus! {

// ---------------------------------------------------------------------------
// Ordering of texts (the order of `String`: byte order of UTF-8, which is
// the order of code points)
// ---------------------------------------------------------------------------

/// `a` comes before or equals `b` in lexicographic order of code points.
pub open spec fn text_le(a: Seq<char>, b: Seq<char>) -> bool
    decreases a.len(),
{
    if a.len() == 0 {
        true
    } else if b.len() == 0 {
        false
    } else if a[0] != b[0] {
        a[0] < b[0]
    } else {
        text_le(a.drop_first(), b.drop_first())
    }
}

/// The order of texts as a relation.
pub open spec fn text_order() -> spec_fn(Seq<char>, Seq<char>) -> bool {
    |a: Seq<char>, b: Seq<char>| text_le(a, b)
}

proof fn lemma_text_le_reflexive(a: Seq<char>)
    ensures
        text_le(a, a),
    decreases a.len(),
{
    if a.len() > 0 {
        lemma_text_le_reflexive(a.drop_first());
    }
}

proof fn lemma_text_le_antisymmetric(a: Seq<char>, b: Seq<char>)
    requires
        text_le(a, b),
        text_le(b, a),
    ensures
        a == b,
    decreases a.len(),
{
    if a.len() > 0 && b.len() > 0 {
        if a[0] == b[0] {
            lemma_text_le_antisymmetric(a.drop_first(), b.drop_first());
            assert(a =~= seq![a[0]] + a.drop_first());
            assert(b =~= seq![b[0]] + b.drop_first());
        }
    } else {
        assert(a.len() == 0 && b.len() == 0);
        assert(a =~= b);
    }
}

proof fn lemma_text_le_transitive(a: Seq<char>, b: Seq<char>, c: Seq<char>)
    requires
        text_le(a, b),
        text_le(b, c),
    ensures
        text_le(a, c),
    decreases a.len(),
{
    if a.len() > 0 && b.len() > 0 && c.len() > 0 {
        if a[0] == b[0] && b[0] == c[0] {
            lemma_text_le_transitive(a.drop_first(), b.drop_first(), c.drop_first());
        }
    }
}

proof fn lemma_text_le_total(a: Seq<char>, b: Seq<char>)
    ensures
        text_le(a, b) || text_le(b, a),
    decreases a.len(),
{
    if a.len() > 0 && b.len() > 0 && a[0] == b[0] {
        lemma_text_le_total(a.drop_first(), b.drop_first());
    }
}

/// The order of texts is a total order.
pub proof fn lemma_text_order_total()
    ensures
        total_ordering(text_order()),
{
    assert forall|a: Seq<char>| #[trigger] text_order()(a, a) by {
        lemma_text_le_reflexive(a);
    }
    assert forall|a: Seq<char>, b: Seq<char>|
        #[trigger] text_order()(a, b) && #[trigger] text_order()(b, a) implies a == b by {
        lemma_text_le_antisymmetric(a, b);
    }
    assert forall|a: Seq<char>, b: Seq<char>, c: Seq<char>|
        #[trigger] text_order()(a, b) && #[trigger] text_order()(b, c) implies text_order()(
        a,
        c,
    ) by {
        lemma_text_le_transitive(a, b, c);
    }
    assert forall|a: Seq<char>, b: Seq<char>|
        #[trigger] text_order()(a, b) || #[trigger] text_order()(b, a) by {
        lemma_text_le_total(a, b);
    }
}

/// Whether `a` comes before or equals `b` (the order of `String`).
pub fn text_le_exec(a: &Vec<char>, b: &Vec<char>) -> (res: bool)
    ensures
        res == text_le(a@, b@),
{
    let mut i: usize = 0;
    assert(a@.subrange(0, a@.len() as int) =~= a@);
    assert(b@.subrange(0, b@.len() as int) =~= b@);
    while i < a.len() && i < b.len() && a[i] == b[i]
        invariant
            i <= a.len(),
            i <= b.len(),
            text_le(a@, b@) == text_le(a@.subrange(i as int, a@.len() as int), b@.subrange(i as int, b@.len() as int)),
        decreases a.len() - i,
    {
        let ghost sa = a@.subrange(i as int, a@.len() as int);
        let ghost sb = b@.subrange(i as int, b@.len() as int);
        assert(sa.drop_first() =~= a@.subrange(i + 1, a@.len() as int));
        assert(sb.drop_first() =~= b@.subrange(i + 1, b@.len() as int));
        i = i + 1;
    }
    let ghost sa = a@.subrange(i as int, a@.len() as int);
    let ghost sb = b@.subrange(i as int, b@.len() as int);
    if i == a.len() {
        assert(sa.len() == 0);
        true
    } else if i == b.len() {
        assert(sb.len() == 0);
        false
    } else {
        assert(sa[0] == a@[i as int] && sb[0] == b@[i as int]);
        a[i] < b[i]
    }
}

/// The strings of `v` in `String` order (the order of `sort` on strings).
pub fn sort_strings(v: Vec<String>) -> (res: Vec<String>)
    ensures
        strings_view(res@) == strings_view(v@).sort_by(text_order()),
{
    let mut out: Vec<String> = Vec::new();
    let mut keys: Vec<Vec<char>> = Vec::new();
    let ghost input = strings_view(v@);
    let mut i: usize = 0;
    proof {
        lemma_text_order_total();
        assert(strings_view(out@) =~= input.take(0));
    }
    while i < v.len()
        invariant
            i <= v.len(),
            input == strings_view(v@),
            out@.len() == keys@.len(),
            forall|k: int| 0 <= k < keys@.len() ==> (#[trigger] keys@[k])@ == out@[k]@,
            sorted_by(strings_view(out@), text_order()),
            strings_view(out@).to_multiset() == input.take(i as int).to_multiset(),
            total_ordering(text_order()),
        decreases v.len() - i,
    {
        let s = copy_string(&v[i]);
        let key = chars_of(s.as_str());
        let mut p: usize = 0;
        while p < keys.len() && !text_le_exec(&key, &keys[p])
            invariant
                p <= keys@.len(),
                forall|k: int| 0 <= k < p ==> !text_le(key@, (#[trigger] keys@[k])@),
            decreases keys.len() - p,
        {
            p = p + 1;
        }
        let ghost before = strings_view(out@);
        proof {
            assert forall|k: int| 0 <= k < p implies text_le(before[k], key@) by {
                lemma_text_le_total(key@, keys@[k]@);
                assert(keys@[k]@ == before[k]);
            }
            if p < keys@.len() {
                assert(keys@[p as int]@ == before[p as int]);
            }
        }
        out.insert(p, s);
        keys.insert(p, key);
        proof {
            let after = strings_view(out@);
            assert(after =~= before.insert(p as int, key@));
            assert(sorted_by(after, text_order())) by {
                assert forall|a: int, b: int| 0 <= a < b < after.len() implies #[trigger] text_order()(
                    after[a],
                    after[b],
                ) by {
                    if b < p {
                    } else if b == p {
                    } else if a < p {
                        assert(text_le(before[a], key@));
                        assert(text_le(key@, before[p as int]));
                        lemma_text_le_transitive(before[a], key@, before[p as int]);
                        if b - 1 > p {
                            assert(text_order()(before[p as int], before[b - 1]));
                            lemma_text_le_transitive(before[a], before[p as int], before[b - 1]);
                        }
                    } else if a == p {
                        assert(text_le(key@, before[p as int]));
                        if b - 1 > p {
                            assert(text_order()(before[p as int], before[b - 1]));
                            lemma_text_le_transitive(key@, before[p as int], before[b - 1]);
                        }
                    } else {
                        assert(text_order()(before[a - 1], before[b - 1]));
                    }
                }
            }
            to_multiset_insert(before, p as int, key@);
            assert(input.take(i + 1) =~= input.take(i as int).push(input[i as int]));
            vstd::seq_lib::to_multiset_build(input.take(i as int), input[i as int]);
            assert forall|k: int| 0 <= k < keys@.len() implies (#[trigger] keys@[k])@ == out@[k]@ by {
                assert(after[k] == strings_view(out@)[k]);
            }
        }
        i = i + 1;
    }
    proof {
        assert(input.take(i as int) =~= input);
        input.lemma_sort_by_ensures(text_order());
        lemma_sorted_unique(strings_view(out@), input.sort_by(text_order()), text_order());
    }
    out
}

} // verus!
