//! Character-level text toolkit shared by all parsers.
//!
//! Every operation is specified over `Seq<char>` (the view of `&str` and
//! `String`) and mirrors the behaviour of the `str` method it stands for:
//! `trim`, `lines`, `split`, `split_whitespace`, `starts_with`, `contains`,
//! `find`, integer `parse` and integer formatting.

use vstd::prelude::*;

verus! {

// ---------------------------------------------------------------------------
// Conversions between strings and character vectors
// ---------------------------------------------------------------------------

/// Appends one character to a `String` (`String::push`).
#[verifier::external_body]
pub fn push_char(s: &mut String, c: char)
    ensures
        final(s)@ == old(s)@.push(c),
{
    s.push(c);
}

/// The characters of `s`, in order.
pub fn chars_of(s: &str) -> (v: Vec<char>)
    ensures
        v@ == s@,
{
    let mut v: Vec<char> = Vec::new();
    for c in it: s.chars()
        invariant
            v@ == it.seq().take(it.index() as int),
    {
        v.push(c);
    }
    v
}

/// A `String` holding exactly the characters of `v`.
pub fn string_of(v: &Vec<char>) -> (s: String)
    ensures
        s@ == v@,
{
    let mut s = String::new();
    let mut i: usize = 0;
    while i < v.len()
        invariant
            i <= v.len(),
            s@ == v@.subrange(0, i as int),
        decreases v.len() - i,
    {
        push_char(&mut s, v[i]);
        i = i + 1;
        assert(s@ == v@.subrange(0, i as int));
    }
    assert(v@.subrange(0, v.len() as int) == v@);
    s
}

/// A fresh `String` with the characters of `s`.
pub fn owned(s: &str) -> (r: String)
    ensures
        r@ == s@,
{
    let v = chars_of(s);
    string_of(&v)
}

/// Appends all characters of `t` to `s`.
pub fn push_all(s: &mut String, t: &Vec<char>)
    ensures
        final(s)@ == old(s)@ + t@,
{
    let ghost s0 = s@;
    let mut i: usize = 0;
    while i < t.len()
        invariant
            i <= t.len(),
            s@ == s0 + t@.subrange(0, i as int),
        decreases t.len() - i,
    {
        push_char(s, t[i]);
        i = i + 1;
        assert(s@ == s0 + t@.subrange(0, i as int));
    }
    assert(t@.subrange(0, t.len() as int) == t@);
}

/// Appends all characters of `t` to `s`.
pub fn push_str(s: &mut String, t: &str)
    ensures
        final(s)@ == old(s)@ + t@,
{
    let v = chars_of(t);
    push_all(s, &v);
}

/// The characters `v[from..to]`.
pub fn slice(v: &Vec<char>, from: usize, to: usize) -> (r: Vec<char>)
    requires
        from <= to <= v.len(),
    ensures
        r@ == v@.subrange(from as int, to as int),
{
    let mut r: Vec<char> = Vec::new();
    let mut i = from;
    while i < to
        invariant
            from <= i <= to <= v.len(),
            r@ == v@.subrange(from as int, i as int),
        decreases to - i,
    {
        r.push(v[i]);
        i = i + 1;
        assert(r@ == v@.subrange(from as int, i as int));
    }
    r
}

/// Whether two character sequences are equal.
pub fn chars_eq(a: &Vec<char>, b: &Vec<char>) -> (r: bool)
    ensures
        r == (a@ == b@),
{
    if a.len() != b.len() {
        return false;
    }
    let mut i: usize = 0;
    while i < a.len()
        invariant
            a.len() == b.len(),
            i <= a.len(),
            forall|j: int| 0 <= j < i ==> a@[j] == b@[j],
        decreases a.len() - i,
    {
        if a[i] != b[i] {
            return false;
        }
        i = i + 1;
    }
    assert(a@ =~= b@);
    true
}

/// Whether two strings are equal.
pub fn str_eq(a: &str, b: &str) -> (r: bool)
    ensures
        r == (a@ == b@),
{
    let av = chars_of(a);
    let bv = chars_of(b);
    chars_eq(&av, &bv)
}

/// Whether `a` equals the literal or string `b`.
pub fn eq_str(a: &Vec<char>, b: &str) -> (r: bool)
    ensures
        r == (a@ == b@),
{
    let bv = chars_of(b);
    chars_eq(a, &bv)
}

// ---------------------------------------------------------------------------
// Whitespace and trimming
// ---------------------------------------------------------------------------

/// Unicode `White_Space`, as tested by `char::is_whitespace`.
pub open spec fn is_ws(c: char) -> bool {
    let u = c as u32;
    ||| u == 0x20
    ||| (0x09 <= u && u <= 0x0d)
    ||| u == 0x85
    ||| u == 0xa0
    ||| u == 0x1680
    ||| (0x2000 <= u && u <= 0x200a)
    ||| u == 0x2028
    ||| u == 0x2029
    ||| u == 0x202f
    ||| u == 0x205f
    ||| u == 0x3000
}

/// `char::is_whitespace`.
pub fn is_whitespace(c: char) -> (b: bool)
    ensures
        b == is_ws(c),
{
    let u = c as u32;
    u == 0x20 || (0x09 <= u && u <= 0x0d) || u == 0x85 || u == 0xa0 || u == 0x1680 || (0x2000
        <= u && u <= 0x200a) || u == 0x2028 || u == 0x2029 || u == 0x202f || u == 0x205f || u
        == 0x3000
}

/// `s` without leading whitespace (`str::trim_start`).
pub open spec fn trim_start(s: Seq<char>) -> Seq<char>
    decreases s.len(),
{
    if s.len() > 0 && is_ws(s[0]) {
        trim_start(s.drop_first())
    } else {
        s
    }
}

/// `s` without trailing whitespace (`str::trim_end`).
pub open spec fn trim_end(s: Seq<char>) -> Seq<char>
    decreases s.len(),
{
    if s.len() > 0 && is_ws(s.last()) {
        trim_end(s.drop_last())
    } else {
        s
    }
}

/// `s` without leading and trailing whitespace (`str::trim`).
pub open spec fn trim(s: Seq<char>) -> Seq<char> {
    trim_end(trim_start(s))
}

pub proof fn lemma_trim_start(s: Seq<char>, k: int)
    requires
        0 <= k <= s.len(),
        forall|j: int| 0 <= j < k ==> is_ws(#[trigger] s[j]),
        k == s.len() || !is_ws(s[k]),
    ensures
        trim_start(s) == s.subrange(k, s.len() as int),
    decreases k,
{
    if k == 0 {
        assert(s.subrange(0, s.len() as int) == s);
    } else {
        let t = s.drop_first();
        assert forall|j: int| 0 <= j < k - 1 implies is_ws(#[trigger] t[j]) by {
            assert(t[j] == s[j + 1]);
        }
        lemma_trim_start(t, k - 1);
        assert(t.subrange(k - 1, t.len() as int) == s.subrange(k, s.len() as int));
    }
}

pub proof fn lemma_trim_end(s: Seq<char>, k: int)
    requires
        0 <= k <= s.len(),
        forall|j: int| k <= j < s.len() ==> is_ws(#[trigger] s[j]),
        k == 0 || !is_ws(s[k - 1]),
    ensures
        trim_end(s) == s.subrange(0, k),
    decreases s.len() - k,
{
    if k == s.len() {
        assert(s.subrange(0, s.len() as int) == s);
    } else {
        let t = s.drop_last();
        assert forall|j: int| k <= j < t.len() implies is_ws(#[trigger] t[j]) by {
            assert(t[j] == s[j]);
        }
        lemma_trim_end(t, k);
        assert(t.subrange(0, k) == s.subrange(0, k));
    }
}

/// `str::trim_start`.
pub fn trim_start_chars(v: &Vec<char>) -> (r: Vec<char>)
    ensures
        r@ == trim_start(v@),
{
    let mut i: usize = 0;
    while i < v.len() && is_whitespace(v[i])
        invariant
            i <= v.len(),
            forall|j: int| 0 <= j < i ==> is_ws(#[trigger] v@[j]),
        decreases v.len() - i,
    {
        i = i + 1;
    }
    proof {
        lemma_trim_start(v@, i as int);
    }
    slice(v, i, v.len())
}

/// `str::trim_end`.
pub fn trim_end_chars(v: &Vec<char>) -> (r: Vec<char>)
    ensures
        r@ == trim_end(v@),
{
    let mut k: usize = v.len();
    while k > 0 && is_whitespace(v[k - 1])
        invariant
            k <= v.len(),
            forall|j: int| k <= j < v.len() ==> is_ws(#[trigger] v@[j]),
        decreases k,
    {
        k = k - 1;
    }
    proof {
        lemma_trim_end(v@, k as int);
    }
    slice(v, 0, k)
}

/// `str::trim`.
pub fn trim_chars(v: &Vec<char>) -> (r: Vec<char>)
    ensures
        r@ == trim(v@),
{
    let a = trim_start_chars(v);
    trim_end_chars(&a)
}


// ---------------------------------------------------------------------------
// Searching
// ---------------------------------------------------------------------------

/// `i` is the first position of `s` whose character equals `c`.
pub open spec fn is_first_char(s: Seq<char>, c: char, i: int) -> bool {
    0 <= i < s.len() && s[i] == c && forall|j: int| 0 <= j < i ==> s[j] != c
}

/// The position of the first `c` in `s` (`str::find` with a `char`).
pub open spec fn find_char(s: Seq<char>, c: char) -> Option<int> {
    if exists|i: int| is_first_char(s, c, i) {
        Some(choose|i: int| is_first_char(s, c, i))
    } else {
        None
    }
}

pub proof fn lemma_find_char(s: Seq<char>, c: char, k: int)
    requires
        0 <= k <= s.len(),
        forall|j: int| 0 <= j < k ==> s[j] != c,
        k == s.len() || s[k] == c,
    ensures
        find_char(s, c) == (if k == s.len() {
            None::<int>
        } else {
            Some(k)
        }),
{
    if k < s.len() {
        assert(is_first_char(s, c, k));
        let i = choose|i: int| is_first_char(s, c, i);
        assert(i == k) by {
            if i < k {
                assert(s[i] == c);
            } else if i > k {
                assert(s[k] != c);
            }
        }
    } else {
        assert forall|i: int| !is_first_char(s, c, i) by {
            if 0 <= i < s.len() {
                assert(s[i] != c);
            }
        }
    }
}

/// The position of the first `c` in `v`.
pub fn find_char_in(v: &Vec<char>, c: char) -> (r: Option<usize>)
    ensures
        r matches Some(i) ==> find_char(v@, c) == Some(i as int) && i < v.len() && v@[i as int]
            == c,
        r is None ==> find_char(v@, c) is None,
{
    let mut i: usize = 0;
    while i < v.len() && v[i] != c
        invariant
            i <= v.len(),
            forall|j: int| 0 <= j < i ==> v@[j] != c,
        decreases v.len() - i,
    {
        i = i + 1;
    }
    proof {
        lemma_find_char(v@, c, i as int);
    }
    if i == v.len() {
        None
    } else {
        Some(i)
    }
}

/// `p` occurs in `s` starting at position `i`.
pub open spec fn occurs_at(s: Seq<char>, p: Seq<char>, i: int) -> bool {
    0 <= i && i + p.len() <= s.len() && s.subrange(i, i + p.len()) == p
}

/// `p` occurs in `s` (`str::contains`).
pub open spec fn contains(s: Seq<char>, p: Seq<char>) -> bool {
    exists|i: int| occurs_at(s, p, i)
}

/// `s` starts with `p` (`str::starts_with`).
pub open spec fn starts_with(s: Seq<char>, p: Seq<char>) -> bool {
    occurs_at(s, p, 0)
}

/// `s` ends with `p` (`str::ends_with`).
pub open spec fn ends_with(s: Seq<char>, p: Seq<char>) -> bool {
    p.len() <= s.len() && occurs_at(s, p, s.len() - p.len())
}

/// `i` is the first occurrence of `p` in `s`.
pub open spec fn is_first_occ(s: Seq<char>, p: Seq<char>, i: int) -> bool {
    occurs_at(s, p, i) && forall|j: int| 0 <= j < i ==> !occurs_at(s, p, j)
}

/// The position of the first occurrence of `p` in `s` (`str::find`).
pub open spec fn find_str(s: Seq<char>, p: Seq<char>) -> Option<int> {
    if exists|i: int| is_first_occ(s, p, i) {
        Some(choose|i: int| is_first_occ(s, p, i))
    } else {
        None
    }
}

/// Whether `p` occurs in `v` at position `i`.
pub fn occurs_at_exec(v: &Vec<char>, p: &Vec<char>, i: usize) -> (r: bool)
    ensures
        r == occurs_at(v@, p@, i as int),
{
    if i > v.len() || p.len() > v.len() - i {
        return false;
    }
    let mut k: usize = 0;
    while k < p.len()
        invariant
            i + p.len() <= v.len(),
            k <= p.len(),
            forall|j: int| 0 <= j < k ==> v@[i + j] == p@[j],
        decreases p.len() - k,
    {
        if v[i + k] != p[k] {
            assert(v@.subrange(i as int, i + p.len())[k as int] != p@[k as int]);
            return false;
        }
        k = k + 1;
    }
    assert(v@.subrange(i as int, i + p.len()) =~= p@);
    true
}

/// The first occurrence of `p` in `v`, or `None`; also decides `contains`.
pub fn find_in(v: &Vec<char>, p: &Vec<char>) -> (r: Option<usize>)
    ensures
        r matches Some(i) ==> find_str(v@, p@) == Some(i as int),
        r is None ==> find_str(v@, p@) is None,
        r is Some <==> contains(v@, p@),
{
    if p.len() > v.len() {
        assert forall|i: int| !occurs_at(v@, p@, i) by {}
        assert forall|i: int| !is_first_occ(v@, p@, i) by {}
        return None;
    }
    let last = v.len() - p.len();
    let mut i: usize = 0;
    loop
        invariant
            last == v.len() - p.len(),
            i <= last,
            forall|j: int| 0 <= j < i ==> !occurs_at(v@, p@, j),
        ensures
            forall|j: int| 0 <= j <= last ==> !occurs_at(v@, p@, j),
        decreases last - i,
    {
        if occurs_at_exec(v, p, i) {
            assert(is_first_occ(v@, p@, i as int));
            let ghost k = choose|k: int| is_first_occ(v@, p@, k);
            assert(k == i as int) by {
                if k < i {
                    assert(!occurs_at(v@, p@, k));
                } else if k > i {
                    assert(!occurs_at(v@, p@, i as int));
                }
            }
            return Some(i);
        }
        if i == last {
            break;
        }
        i = i + 1;
    }
    assert forall|j: int| !occurs_at(v@, p@, j) by {
        if 0 <= j <= last {
        }
    }
    assert forall|j: int| !is_first_occ(v@, p@, j) by {}
    None
}

/// `str::find` with a string pattern.
pub fn find_lit(v: &Vec<char>, p: &str) -> (r: Option<usize>)
    ensures
        r matches Some(i) ==> find_str(v@, p@) == Some(i as int),
        r is None ==> find_str(v@, p@) is None,
        r is Some <==> contains(v@, p@),
{
    let pv = chars_of(p);
    find_in(v, &pv)
}

/// `str::contains` with a string pattern.
pub fn contains_lit(v: &Vec<char>, p: &str) -> (r: bool)
    ensures
        r == contains(v@, p@),
{
    find_lit(v, p).is_some()
}

/// `str::starts_with` with a string pattern.
pub fn starts_with_lit(v: &Vec<char>, p: &str) -> (r: bool)
    ensures
        r == starts_with(v@, p@),
{
    let pv = chars_of(p);
    occurs_at_exec(v, &pv, 0)
}

/// `str::ends_with` with a string pattern.
pub fn ends_with_lit(v: &Vec<char>, p: &str) -> (r: bool)
    ensures
        r == ends_with(v@, p@),
{
    let pv = chars_of(p);
    if pv.len() > v.len() {
        false
    } else {
        occurs_at_exec(v, &pv, v.len() - pv.len())
    }
}


// ---------------------------------------------------------------------------
// Splitting
// ---------------------------------------------------------------------------

/// The views of a vector of character vectors.
pub open spec fn views(v: Seq<Vec<char>>) -> Seq<Seq<char>> {
    Seq::new(v.len(), |i: int| v[i]@)
}

pub proof fn lemma_views_push(v: Seq<Vec<char>>, x: Vec<char>)
    ensures
        views(v.push(x)) == views(v).push(x@),
{
    assert(views(v.push(x)) =~= views(v).push(x@));
}

/// The pieces of `s` between occurrences of `c` (`str::split` with a `char`).
pub open spec fn split_char(s: Seq<char>, c: char) -> Seq<Seq<char>>
    decreases s.len(),
{
    if exists|i: int| is_first_char(s, c, i) {
        let i = choose|i: int| is_first_char(s, c, i);
        seq![s.subrange(0, i)] + split_char(s.subrange(i + 1, s.len() as int), c)
    } else {
        seq![s]
    }
}

/// `s` without one trailing carriage return.
pub open spec fn strip_cr(s: Seq<char>) -> Seq<char> {
    if s.len() > 0 && s.last() == '\r' {
        s.drop_last()
    } else {
        s
    }
}

/// The lines of `s` (`str::lines`): pieces ended by `\n` or `\r\n`, where the
/// final line ending is optional.
pub open spec fn lines(s: Seq<char>) -> Seq<Seq<char>>
    decreases s.len(),
{
    if s.len() == 0 {
        seq![]
    } else if exists|i: int| is_first_char(s, '\n', i) {
        let i = choose|i: int| is_first_char(s, '\n', i);
        seq![strip_cr(s.subrange(0, i))] + lines(s.subrange(i + 1, s.len() as int))
    } else {
        seq![s]
    }
}

/// `i` is the first whitespace position of `s`.
pub open spec fn is_first_ws(s: Seq<char>, i: int) -> bool {
    0 <= i < s.len() && is_ws(s[i]) && forall|j: int| 0 <= j < i ==> !is_ws(s[j])
}

/// Length of the leading run of non-whitespace characters of `s`.
pub open spec fn word_len(s: Seq<char>) -> int {
    if exists|i: int| is_first_ws(s, i) {
        choose|i: int| is_first_ws(s, i)
    } else {
        s.len() as int
    }
}

pub proof fn lemma_word_len(s: Seq<char>, k: int)
    requires
        0 <= k <= s.len(),
        forall|j: int| 0 <= j < k ==> !is_ws(#[trigger] s[j]),
        k == s.len() || is_ws(s[k]),
    ensures
        word_len(s) == k,
{
    if k < s.len() {
        assert(is_first_ws(s, k));
        let i = choose|i: int| is_first_ws(s, i);
        assert(i == k) by {
            if i < k {
                assert(!is_ws(s[i]));
            } else if i > k {
                assert(!is_ws(s[k]));
            }
        }
    } else {
        assert forall|i: int| !is_first_ws(s, i) by {
            if 0 <= i < s.len() {
                assert(!is_ws(s[i]));
            }
        }
    }
}

/// The maximal runs of non-whitespace characters of `s`
/// (`str::split_whitespace`).
pub open spec fn split_ws(s: Seq<char>) -> Seq<Seq<char>>
    decreases s.len(),
{
    if s.len() == 0 {
        seq![]
    } else if is_ws(s[0]) {
        split_ws(s.drop_first())
    } else {
        let k = word_len(s);
        if 0 < k <= s.len() {
            seq![s.subrange(0, k)] + split_ws(s.subrange(k, s.len() as int))
        } else {
            seq![s]
        }
    }
}

/// `str::split` with a `char` separator.
pub fn split_char_in(v: &Vec<char>, c: char) -> (r: Vec<Vec<char>>)
    ensures
        views(r@) == split_char(v@, c),
{
    let mut r: Vec<Vec<char>> = Vec::new();
    let mut start: usize = 0;
    assert(v@.subrange(0, v.len() as int) == v@);
    assert(views(r@) + split_char(v@, c) =~= split_char(v@, c));
    loop
        invariant
            start <= v.len(),
            split_char(v@, c) == views(r@) + split_char(v@.subrange(start as int, v.len() as int), c),
        decreases v.len() - start,
    {
        let ghost t = v@.subrange(start as int, v.len() as int);
        let mut q = start;
        while q < v.len() && v[q] != c
            invariant
                start <= q <= v.len(),
                forall|j: int| start <= j < q ==> v@[j] != c,
            decreases v.len() - q,
        {
            q = q + 1;
        }
        proof {
            lemma_find_char(t, c, q - start);
        }
        let piece = slice(v, start, q);
        proof {
            lemma_views_push(r@, piece);
        }
        if q == v.len() {
            assert(!exists|i: int| is_first_char(t, c, i));
            assert(piece@ == t);
            r.push(piece);
            return r;
        }
        assert(exists|i: int| is_first_char(t, c, i));
        assert(t.subrange(0, q - start) == piece@);
        assert(t.subrange(q - start + 1, t.len() as int) == v@.subrange(q + 1, v.len() as int));
        r.push(piece);
        start = q + 1;
    }
}

pub proof fn lemma_split_char_nonempty(s: Seq<char>, c: char)
    ensures
        split_char(s, c).len() >= 1,
    decreases s.len(),
{
    if exists|i: int| is_first_char(s, c, i) {
        let i = choose|i: int| is_first_char(s, c, i);
        lemma_split_char_nonempty(s.subrange(i + 1, s.len() as int), c);
    }
}

/// `str::lines`.
pub fn lines_of(v: &Vec<char>) -> (r: Vec<Vec<char>>)
    ensures
        views(r@) == lines(v@),
{
    let mut r: Vec<Vec<char>> = Vec::new();
    let mut start: usize = 0;
    assert(v@.subrange(0, v.len() as int) == v@);
    assert(views(r@) + lines(v@) =~= lines(v@));
    while start < v.len()
        invariant
            start <= v.len(),
            lines(v@) == views(r@) + lines(v@.subrange(start as int, v.len() as int)),
        decreases v.len() - start,
    {
        let ghost t = v@.subrange(start as int, v.len() as int);
        let mut q = start;
        while q < v.len() && v[q] != '\n'
            invariant
                start <= q <= v.len(),
                forall|j: int| start <= j < q ==> v@[j] != '\n',
            decreases v.len() - q,
        {
            q = q + 1;
        }
        proof {
            lemma_find_char(t, '\n', q - start);
        }
        let ghost r0 = r@;
        if q == v.len() {
            let piece = slice(v, start, q);
            assert(!exists|i: int| is_first_char(t, '\n', i));
            assert(piece@ == t);
            proof {
                lemma_views_push(r@, piece);
            }
            r.push(piece);
            start = q;
            assert(v@.subrange(start as int, v.len() as int) =~= Seq::<char>::empty());
        } else {
            let end = if q > start && v[q - 1] == '\r' {
                q - 1
            } else {
                q
            };
            let piece = slice(v, start, end);
            assert(exists|i: int| is_first_char(t, '\n', i));
            assert(piece@ == strip_cr(t.subrange(0, q - start)));
            assert(t.subrange(q - start + 1, t.len() as int) == v@.subrange(
                q + 1,
                v.len() as int,
            ));
            proof {
                lemma_views_push(r@, piece);
            }
            r.push(piece);
            start = q + 1;
        }
    }
    assert(v@.subrange(start as int, v.len() as int) =~= Seq::<char>::empty());
    assert(views(r@) + Seq::<Seq<char>>::empty() == views(r@));
    r
}

/// `str::split_whitespace`.
pub fn split_ws_in(v: &Vec<char>) -> (r: Vec<Vec<char>>)
    ensures
        views(r@) == split_ws(v@),
{
    let mut r: Vec<Vec<char>> = Vec::new();
    let mut i: usize = 0;
    assert(v@.subrange(0, v.len() as int) == v@);
    assert(views(r@) + split_ws(v@) =~= split_ws(v@));
    while i < v.len()
        invariant
            i <= v.len(),
            split_ws(v@) == views(r@) + split_ws(v@.subrange(i as int, v.len() as int)),
        decreases v.len() - i,
    {
        let ghost t = v@.subrange(i as int, v.len() as int);
        if is_whitespace(v[i]) {
            assert(t.drop_first() == v@.subrange(i + 1, v.len() as int));
            i = i + 1;
        } else {
            let mut q = i;
            while q < v.len() && !is_whitespace(v[q])
                invariant
                    i <= q <= v.len(),
                    forall|j: int| i <= j < q ==> !is_ws(#[trigger] v@[j]),
                decreases v.len() - q,
            {
                q = q + 1;
            }
            assert forall|j: int| 0 <= j < q - i implies !is_ws(#[trigger] t[j]) by {
                assert(t[j] == v@[i + j]);
            }
            proof {
                lemma_word_len(t, q - i);
            }
            let piece = slice(v, i, q);
            assert(t.subrange(0, q - i) == piece@);
            assert(t.subrange(q - i, t.len() as int) == v@.subrange(q as int, v.len() as int));
            proof {
                lemma_views_push(r@, piece);
            }
            r.push(piece);
            i = q;
        }
    }
    assert(v@.subrange(i as int, v.len() as int) =~= Seq::<char>::empty());
    assert(views(r@) + Seq::<Seq<char>>::empty() == views(r@));
    r
}


// ---------------------------------------------------------------------------
// Integers: `str::parse` and decimal formatting
// ---------------------------------------------------------------------------

/// An ASCII decimal digit.
pub open spec fn is_digit(c: char) -> bool {
    48 <= (c as u32) && (c as u32) <= 57
}

/// The value of an ASCII decimal digit.
pub open spec fn digit_val(c: char) -> int {
    (c as u32) as int - 48
}

/// The value of a string of decimal digits, most significant first.
pub open spec fn digits_value(s: Seq<char>) -> int
    decreases s.len(),
{
    if s.len() == 0 {
        0
    } else {
        digits_value(s.drop_last()) * 10 + digit_val(s.last())
    }
}

/// `s` is a non-empty string of decimal digits.
pub open spec fn all_digits(s: Seq<char>) -> bool {
    s.len() > 0 && forall|i: int| 0 <= i < s.len() ==> is_digit(#[trigger] s[i])
}

/// `s` with one leading `+` removed.
pub open spec fn unsigned_body(s: Seq<char>) -> Seq<char> {
    if s.len() > 0 && s[0] == '+' {
        s.drop_first()
    } else {
        s
    }
}

/// `str::parse` for an unsigned integer type whose largest value is `max`:
/// an optional `+` followed by at least one decimal digit, the value at most
/// `max`.
pub open spec fn parse_unsigned(s: Seq<char>, max: int) -> Option<int> {
    let b = unsigned_body(s);
    if all_digits(b) && digits_value(b) <= max {
        Some(digits_value(b))
    } else {
        None
    }
}

/// `str::parse::<i64>`: an optional sign followed by at least one decimal
/// digit, the value within the range of `i64`.
pub open spec fn parse_i64(s: Seq<char>) -> Option<int> {
    if s.len() > 0 && s[0] == '-' {
        let b = s.drop_first();
        if all_digits(b) && digits_value(b) <= 0x8000_0000_0000_0000 {
            Some(-digits_value(b))
        } else {
            None
        }
    } else {
        parse_unsigned(s, 0x7fff_ffff_ffff_ffff)
    }
}

pub proof fn lemma_digits_value_nonneg(s: Seq<char>)
    requires
        forall|i: int| 0 <= i < s.len() ==> is_digit(#[trigger] s[i]),
    ensures
        digits_value(s) >= 0,
    decreases s.len(),
{
    if s.len() > 0 {
        let t = s.drop_last();
        assert forall|i: int| 0 <= i < t.len() implies is_digit(#[trigger] t[i]) by {
            assert(t[i] == s[i]);
        }
        lemma_digits_value_nonneg(t);
        assert(is_digit(s[s.len() - 1]));
    }
}

/// The value of the digits `v[from..]` if they are all digits and the value is
/// at most `max`.
fn digits_upto(v: &Vec<char>, from: usize, max: u64) -> (r: Option<u64>)
    requires
        from <= v.len(),
    ensures
        r matches Some(x) ==> all_digits(v@.subrange(from as int, v.len() as int)) && x
            == digits_value(v@.subrange(from as int, v.len() as int)) && x <= max,
        r is None ==> !(all_digits(v@.subrange(from as int, v.len() as int)) && digits_value(
            v@.subrange(from as int, v.len() as int),
        ) <= max),
{
    if from == v.len() {
        return None;
    }
    let mut acc: u64 = 0;
    let mut over = false;
    let mut i = from;
    assert(v@.subrange(from as int, from as int) =~= Seq::<char>::empty());
    while i < v.len()
        invariant
            from <= i <= v.len(),
            forall|j: int| from <= j < i ==> is_digit(#[trigger] v@[j]),
            over ==> digits_value(v@.subrange(from as int, i as int)) > max,
            !over ==> acc == digits_value(v@.subrange(from as int, i as int)) && acc <= max,
        decreases v.len() - i,
    {
        let c = v[i];
        let u = c as u32;
        if u < 48 || u > 57 {
            let ghost t = v@.subrange(from as int, v.len() as int);
            assert(t[i - from] == c);
            return None;
        }
        let d: u64 = (u - 48) as u64;
        let ghost prev = v@.subrange(from as int, i as int);
        let ghost next = v@.subrange(from as int, i + 1);
        assert(next.drop_last() == prev);
        assert(digits_value(next) == digits_value(prev) * 10 + d);
        if !over {
            if d <= max && acc <= (max - d) / 10 {
                assert(acc * 10 + d <= max) by (nonlinear_arith)
                    requires
                        d <= max,
                        acc <= (max - d) / 10,
                ;
                acc = acc * 10 + d;
            } else {
                assert(acc * 10 + d > max) by (nonlinear_arith)
                    requires
                        !(d <= max && acc <= (max - d) / 10),
                        d <= 9,
                ;
                over = true;
            }
        } else {
            proof {
                assert forall|j: int| 0 <= j < prev.len() implies is_digit(#[trigger] prev[j]) by {
                    assert(prev[j] == v@[from + j]);
                }
                lemma_digits_value_nonneg(prev);
            }
        }
        i = i + 1;
    }
    let ghost t = v@.subrange(from as int, v.len() as int);
    assert forall|j: int| 0 <= j < t.len() implies is_digit(#[trigger] t[j]) by {
        assert(t[j] == v@[from + j]);
    }
    if over {
        None
    } else {
        Some(acc)
    }
}

/// `str::parse` for an unsigned integer type whose largest value is `max`.
pub fn parse_unsigned_in(v: &Vec<char>, max: u64) -> (r: Option<u64>)
    ensures
        r matches Some(x) ==> parse_unsigned(v@, max as int) == Some(x as int),
        r is None ==> parse_unsigned(v@, max as int) is None,
{
    let from: usize = if v.len() > 0 && v[0] == '+' {
        1
    } else {
        0
    };
    assert(v@.subrange(from as int, v.len() as int) == unsigned_body(v@));
    digits_upto(v, from, max)
}

/// `str::parse::<u64>`.
pub fn parse_u64(v: &Vec<char>) -> (r: Option<u64>)
    ensures
        r matches Some(x) ==> parse_unsigned(v@, u64::MAX as int) == Some(x as int),
        r is None ==> parse_unsigned(v@, u64::MAX as int) is None,
{
    parse_unsigned_in(v, u64::MAX)
}

/// `str::parse::<i64>`.
pub fn parse_i64_in(v: &Vec<char>) -> (r: Option<i64>)
    ensures
        r matches Some(x) ==> parse_i64(v@) == Some(x as int),
        r is None ==> parse_i64(v@) is None,
{
    if v.len() > 0 && v[0] == '-' {
        assert(v@.subrange(1, v.len() as int) == v@.drop_first());
        match digits_upto(v, 1, 0x8000_0000_0000_0000u64) {
            Some(m) => {
                if m == 0x8000_0000_0000_0000u64 {
                    Some(i64::MIN)
                } else {
                    Some(-(m as i64))
                }
            },
            None => None,
        }
    } else {
        match parse_unsigned_in(v, 0x7fff_ffff_ffff_ffffu64) {
            Some(m) => Some(m as i64),
            None => None,
        }
    }
}

/// The ASCII digit for `d` in `0..10`.
pub open spec fn digit_char(d: int) -> char {
    ((d + 48) as u8) as char
}

/// Decimal representation of a natural number, without leading zeros.
pub open spec fn nat_text(n: nat) -> Seq<char>
    decreases n,
{
    if n < 10 {
        seq![digit_char(n as int)]
    } else {
        nat_text(n / 10).push(digit_char((n % 10) as int))
    }
}

/// Decimal representation of an integer, as `Display` writes it.
pub open spec fn int_text(n: int) -> Seq<char> {
    if n < 0 {
        seq!['-'] + nat_text((-n) as nat)
    } else {
        nat_text(n as nat)
    }
}

fn u64_digits(n: u64) -> (r: Vec<char>)
    ensures
        r@ == nat_text(n as nat),
    decreases n,
{
    let d = (n % 10) as u8;
    let c = (d + 48) as char;
    if n < 10 {
        vec![c]
    } else {
        let mut r = u64_digits(n / 10);
        r.push(c);
        r
    }
}

/// `u64::to_string`.
pub fn fmt_u64(n: u64) -> (s: String)
    ensures
        s@ == int_text(n as int),
{
    let v = u64_digits(n);
    string_of(&v)
}

/// `i64::to_string`.
pub fn fmt_i64(n: i64) -> (s: String)
    ensures
        s@ == int_text(n as int),
{
    if n < 0 {
        let m: u64 = if n == i64::MIN {
            0x8000_0000_0000_0000u64
        } else {
            (-n) as u64
        };
        let v = u64_digits(m);
        let mut s = String::new();
        push_char(&mut s, '-');
        push_all(&mut s, &v);
        s
    } else {
        fmt_u64(n as u64)
    }
}


// ---------------------------------------------------------------------------
// Case mapping, prefixes, joining
// ---------------------------------------------------------------------------

/// The Unicode lower-case mapping of `s`, as `str::to_lowercase` computes it.
pub uninterp spec fn lowercase(s: Seq<char>) -> Seq<char>;

/// `str::to_lowercase`: its result is the lower-case mapping of its argument,
/// a function of the argument alone.
#[verifier::external_body]
pub fn to_lowercase(s: &str) -> (r: String)
    ensures
        r@ == lowercase(s@),
{
    s.to_lowercase()
}

/// `str::to_lowercase` on a character vector.
pub fn lowercase_chars(v: &Vec<char>) -> (r: Vec<char>)
    ensures
        r@ == lowercase(v@),
{
    let s = string_of(v);
    let l = to_lowercase(s.as_str());
    chars_of(l.as_str())
}

/// `s` without any leading `c` (`str::trim_start_matches` with a `char`).
pub open spec fn strip_leading(s: Seq<char>, c: char) -> Seq<char>
    decreases s.len(),
{
    if s.len() > 0 && s[0] == c {
        strip_leading(s.drop_first(), c)
    } else {
        s
    }
}

/// `s` without any trailing `c` (`str::trim_end_matches` with a `char`).
pub open spec fn strip_trailing(s: Seq<char>, c: char) -> Seq<char>
    decreases s.len(),
{
    if s.len() > 0 && s.last() == c {
        strip_trailing(s.drop_last(), c)
    } else {
        s
    }
}

/// `str::trim_end_matches` with a `char`.
pub fn strip_trailing_chars(v: &Vec<char>, c: char) -> (r: Vec<char>)
    ensures
        r@ == strip_trailing(v@, c),
{
    let mut k: usize = v.len();
    assert(v@.subrange(0, v.len() as int) == v@);
    while k > 0 && v[k - 1] == c
        invariant
            k <= v.len(),
            strip_trailing(v@, c) == strip_trailing(v@.subrange(0, k as int), c),
        decreases k,
    {
        assert(v@.subrange(0, k as int).drop_last() == v@.subrange(0, k - 1));
        k = k - 1;
    }
    slice(v, 0, k)
}

/// `str::trim_start_matches` with a `char`.
pub fn strip_leading_chars(v: &Vec<char>, c: char) -> (r: Vec<char>)
    ensures
        r@ == strip_leading(v@, c),
{
    let mut i: usize = 0;
    assert(v@.subrange(0, v.len() as int) == v@);
    while i < v.len() && v[i] == c
        invariant
            i <= v.len(),
            strip_leading(v@, c) == strip_leading(v@.subrange(i as int, v.len() as int), c),
        decreases v.len() - i,
    {
        assert(v@.subrange(i as int, v.len() as int).drop_first() == v@.subrange(
            i + 1,
            v.len() as int,
        ));
        i = i + 1;
    }
    slice(v, i, v.len())
}

/// The pieces joined with `sep` between consecutive pieces (`[T]::join`).
pub open spec fn join(parts: Seq<Seq<char>>, sep: Seq<char>) -> Seq<char>
    decreases parts.len(),
{
    if parts.len() == 0 {
        Seq::empty()
    } else if parts.len() == 1 {
        parts[0]
    } else {
        join(parts.drop_last(), sep) + sep + parts.last()
    }
}

/// The views of a list of strings.
pub open spec fn string_views(v: Seq<String>) -> Seq<Seq<char>> {
    Seq::new(v.len(), |i: int| v[i]@)
}

/// `[String]::join`.
pub fn join_strings(parts: &Vec<String>, sep: &str) -> (r: String)
    ensures
        r@ == join(string_views(parts@), sep@),
{
    let mut r = String::new();
    let mut i: usize = 0;
    while i < parts.len()
        invariant
            i <= parts.len(),
            r@ == join(string_views(parts@).take(i as int), sep@),
        decreases parts.len() - i,
    {
        let ghost pv = string_views(parts@);
        assert(pv.take(i + 1).drop_last() == pv.take(i as int));
        assert(pv.take(i + 1).last() == parts@[i as int]@);
        if i > 0 {
            push_str(&mut r, sep);
        } else {
            assert(pv.take(0) =~= Seq::<Seq<char>>::empty());
            assert(pv.take(1)[0] == parts@[0]@);
        }
        push_str(&mut r, parts[i].as_str());
        i = i + 1;
    }
    assert(string_views(parts@).take(parts.len() as int) == string_views(parts@));
    r
}


// ---------------------------------------------------------------------------
// Plain decimal numbers
// ---------------------------------------------------------------------------

/// Every character of `s` is a decimal digit (`s` may be empty).
pub open spec fn digit_run(s: Seq<char>) -> bool {
    forall|i: int| 0 <= i < s.len() ==> is_digit(#[trigger] s[i])
}

/// Whether the text starts with `-`, and the text without a leading sign.
pub open spec fn sign_body(s: Seq<char>) -> (bool, Seq<char>) {
    if s.len() > 0 && (s[0] == '+' || s[0] == '-') {
        (s[0] == '-', s.drop_first())
    } else {
        (false, s)
    }
}

/// The integer and fraction digits of an unsigned plain decimal number
/// (`12`, `12.5`, `12.`, `.5`): digits with at most one `.`, and at least one
/// digit.
pub open spec fn decimal_split(b: Seq<char>) -> Option<(Seq<char>, Seq<char>)> {
    match find_char(b, '.') {
        None => if all_digits(b) {
            Some((b, Seq::empty()))
        } else {
            None
        },
        Some(k) => if b.len() > 1 && digit_run(b.take(k)) && digit_run(b.skip(k + 1)) {
            Some((b.take(k), b.skip(k + 1)))
        } else {
            None
        },
    }
}

/// Whether every character of `v` is a decimal digit.
pub fn digit_run_in(v: &Vec<char>) -> (r: bool)
    ensures
        r == digit_run(v@),
{
    let mut i: usize = 0;
    while i < v.len()
        invariant
            i <= v.len(),
            forall|j: int| 0 <= j < i ==> is_digit(#[trigger] v@[j]),
        decreases v.len() - i,
    {
        let u = v[i] as u32;
        if u < 48 || u > 57 {
            return false;
        }
        i = i + 1;
    }
    true
}

// ---------------------------------------------------------------------------
// Splitting at a string
// ---------------------------------------------------------------------------

/// The pieces of `s` between occurrences of the non-empty `p`, searched left
/// to right (`str::split` with a string pattern).
pub open spec fn split_str(s: Seq<char>, p: Seq<char>) -> Seq<Seq<char>>
    decreases s.len(),
{
    if p.len() == 0 {
        seq![s]
    } else {
        match find_str(s, p) {
            Some(i) => if 0 <= i && i + p.len() <= s.len() {
                seq![s.take(i)] + split_str(s.skip(i + p.len()), p)
            } else {
                seq![s]
            },
            None => seq![s],
        }
    }
}

/// `str::split` with a non-empty string pattern.
pub fn split_str_in(v: &Vec<char>, p: &str) -> (r: Vec<Vec<char>>)
    requires
        p@.len() > 0,
    ensures
        views(r@) == split_str(v@, p@),
{
    let pv = chars_of(p);
    let mut r: Vec<Vec<char>> = Vec::new();
    let mut rest = slice(v, 0, v.len());
    assert(rest@ == v@);
    assert(views(r@) + split_str(rest@, p@) =~= split_str(v@, p@));
    loop
        invariant
            pv@ == p@,
            p@.len() > 0,
            split_str(v@, p@) == views(r@) + split_str(rest@, p@),
        decreases rest@.len(),
    {
        match find_in(&rest, &pv) {
            Some(i) => {
                let ghost k = choose|k: int| is_first_occ(rest@, p@, k);
                assert(exists|k: int| is_first_occ(rest@, p@, k));
                assert(is_first_occ(rest@, p@, k));
                let n = rest.len();
                assert(i + pv.len() <= n);
                let piece = slice(&rest, 0, i);
                let tail = slice(&rest, i + pv.len(), n);
                assert(piece@ == rest@.take(i as int));
                assert(tail@ == rest@.skip(i + p@.len()));
                proof {
                    lemma_views_push(r@, piece);
                }
                let ghost r0 = views(r@);
                r.push(piece);
                assert(views(r@) + split_str(tail@, p@) =~= r0 + split_str(rest@, p@));
                rest = tail;
            },
            None => {
                proof {
                    lemma_views_push(r@, rest);
                }
                let ghost r0 = views(r@);
                assert(split_str(rest@, p@) == seq![rest@]);
                r.push(rest);
                assert(views(r@) =~= r0 + seq![rest@]);
                return r;
            },
        }
    }
}

} // verus!
