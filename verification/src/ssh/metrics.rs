//! Metrics read from command output: uptime and load averages as text, and
//! the fields that hold the CPU, memory and disk percentages, which the
//! caller reads as floating-point numbers.

use vstd::prelude::*;

use crate::text::{
    chars_of, contains, contains_lit, eq_str, find_char, find_char_in, find_lit, find_str,
    is_first_occ, parse_u64, parse_unsigned, ends_with, ends_with_lit, trim_start, trim_start_chars, split_char, split_char_in, starts_with, starts_with_lit, strip_trailing,
    strip_trailing_chars, join, join_strings, lines, lines_of,
    lowercase, lowercase_chars, push_all, push_str, slice, split_str, split_str_in, split_ws,
    split_ws_in, string_of, string_views, trim, trim_chars, views,
};

verus! {

/// The pieces of the uptime text before the first one mentioning `user`,
/// each trimmed.
pub open spec fn uptime_pieces(ps: Seq<Seq<char>>) -> Seq<Seq<char>>
    decreases ps.len(),
{
    if ps.len() == 0 || contains(trim(ps[0]), "user"@) {
        Seq::empty()
    } else {
        seq![trim(ps[0])] + uptime_pieces(ps.drop_first())
    }
}

/// The uptime shown: with days, only the days; otherwise the text as it is.
pub open spec fn uptime_shown(u: Seq<char>) -> Seq<char> {
    match find_str(u, " days"@) {
        Some(d) => u.take(d + 5),
        None => match find_str(u, " day,"@) {
            Some(d) => u.take(d + 4),
            None => u,
        },
    }
}

/// The uptime read from a line of `uptime` output, given the line
/// lower-cased as `lower`: the text of `line` after the first ` up ` of
/// `lower` (at a character position), cut before the user count, reduced to
/// the day count when there is one.
pub open spec fn uptime_in(line: Seq<char>, lower: Seq<char>) -> Option<Seq<char>> {
    match find_str(lower, " up "@) {
        None => None,
        Some(i) => if i + 4 <= line.len() {
            let after = trim(line.skip(i + 4));
            let ps = uptime_pieces(split_str(after, ", "@));
            Some(
                uptime_shown(
                    if ps.len() == 0 {
                        after
                    } else {
                        join(ps, ", "@)
                    },
                ),
            )
        } else {
            None
        },
    }
}

/// The uptime read from the first line of `uptime` output: the text after
/// ` up ` (found without regard to case, at a character position), cut
/// before the user count, reduced to the day count when there is one.
pub open spec fn uptime_of(output: Seq<char>) -> Option<Seq<char>> {
    if lines(output).len() == 0 {
        None
    } else {
        uptime_in(lines(output)[0], lowercase(lines(output)[0]))
    }
}

/// Reads the uptime from `uptime` output, e.g. `2 days` or `3:45`; see
/// [`uptime_of`].
pub fn parse_uptime(output: &str) -> (r: Option<String>)
    ensures
        r matches Some(s) ==> uptime_of(output@) == Some(s@),
        r is None ==> uptime_of(output@) is None,
{
    let v = chars_of(output);
    let ls = lines_of(&v);
    if ls.len() == 0 {
        return None;
    }
    let line = &ls[0];
    let lower = lowercase_chars(line);
    uptime_in_line(line, &lower)
}

/// Reads the uptime from a line of `uptime` output and that line
/// lower-cased; see [`uptime_in`].
pub fn uptime_in_line(line: &Vec<char>, lower: &Vec<char>) -> (r: Option<String>)
    ensures
        r matches Some(s) ==> uptime_in(line@, lower@) == Some(s@),
        r is None ==> uptime_in(line@, lower@) is None,
{
    let i = match find_lit(&lower, " up ") {
        Some(i) => i,
        None => return None,
    };
    let n = line.len();
    if i > n || n - i < 4 {
        return None;
    }
    let rest = slice(line, i + 4, n);
    assert(rest@ == line@.skip(i + 4));
    let after = trim_chars(&rest);
    proof {
        reveal_strlit(", ");
    }
    let pieces = split_str_in(&after, ", ");
    let ghost pv = views(pieces@);
    let mut kept: Vec<String> = Vec::new();
    let mut j: usize = 0;
    let mut stop = false;
    assert(pv.skip(0) =~= pv);
    assert(string_views(kept@) =~= Seq::<Seq<char>>::empty());
    while j < pieces.len() && !stop
        invariant
            j <= pieces.len(),
            pv == views(pieces@),
            uptime_pieces(pv) == string_views(kept@) + uptime_pieces(pv.skip(j as int)),
            stop ==> j < pieces.len() && uptime_pieces(pv.skip(j as int)).len() == 0,
        decreases pieces.len() - j, if stop {
            0int
        } else {
            1int
        },
    {
        let t = trim_chars(&pieces[j]);
        assert(pv.skip(j as int)[0] == pv[j as int]);
        if contains_lit(&t, "user") {
            stop = true;
        } else {
            let ghost k0 = string_views(kept@);
            kept.push(string_of(&t));
            assert(pv.skip(j as int).drop_first() == pv.skip(j + 1));
            assert(string_views(kept@) =~= k0.push(t@));
            assert(k0 + (seq![t@] + uptime_pieces(pv.skip(j + 1))) =~= k0.push(t@)
                + uptime_pieces(pv.skip(j + 1)));
            j = j + 1;
        }
    }
    proof {
        if !stop {
            assert(pv.skip(j as int).len() == 0);
        }
    }
    assert(uptime_pieces(pv) =~= string_views(kept@));
    let u: Vec<char> = if kept.len() == 0 {
        after
    } else {
        let joined = join_strings(&kept, ", ");
        chars_of(joined.as_str())
    };
    proof {
        reveal_strlit(" days");
        reveal_strlit(" day,");
    }
    match find_lit(&u, " days") {
        Some(d) => {
            let ghost k = choose|k: int| is_first_occ(u@, " days"@, k);
            assert(exists|k: int| is_first_occ(u@, " days"@, k));
            assert(is_first_occ(u@, " days"@, k));
            let m = u.len();
            assert(d + 5 <= m);
            let s = slice(&u, 0, d + 5);
            assert(s@ == u@.take(d + 5));
            Some(string_of(&s))
        },
        None => match find_lit(&u, " day,") {
            Some(d) => {
                let ghost k = choose|k: int| is_first_occ(u@, " day,"@, k);
                assert(exists|k: int| is_first_occ(u@, " day,"@, k));
                assert(is_first_occ(u@, " day,"@, k));
                let m = u.len();
                assert(d + 4 <= m);
                let s = slice(&u, 0, d + 4);
                assert(s@ == u@.take(d + 4));
                Some(string_of(&s))
            },
            None => Some(string_of(&u)),
        },
    }
}

/// The load averages from the first line of `/proc/loadavg`: its first
/// three fields, separated by single spaces; `None` with fewer fields.
pub open spec fn loadavg_of(output: Seq<char>) -> Option<Seq<char>> {
    if lines(output).len() == 0 {
        None
    } else {
        let p = split_ws(lines(output)[0]);
        if p.len() >= 3 {
            Some(p[0] + " "@ + p[1] + " "@ + p[2])
        } else {
            None
        }
    }
}

/// Reads the load averages from `/proc/loadavg` output, e.g.
/// `0.15 0.10 0.08`; see [`loadavg_of`].
pub fn parse_loadavg(output: &str) -> (r: Option<String>)
    ensures
        r matches Some(s) ==> loadavg_of(output@) == Some(s@),
        r is None ==> loadavg_of(output@) is None,
{
    let v = chars_of(output);
    let ls = lines_of(&v);
    if ls.len() == 0 {
        return None;
    }
    let p = split_ws_in(&ls[0]);
    if p.len() >= 3 {
        let mut s = string_of(&p[0]);
        push_str(&mut s, " ");
        push_all(&mut s, &p[1]);
        push_str(&mut s, " ");
        push_all(&mut s, &p[2]);
        Some(s)
    } else {
        None
    }
}


// ---------------------------------------------------------------------------
// CPU: `top`
// ---------------------------------------------------------------------------

/// The summary line formats of `top`.
#[derive(Debug, Clone, Copy, PartialEq, Eq, Structural)]
pub enum TopFormat {
    /// BusyBox: `CPU:   4% usr   1% sys ... 94% idle ...`.
    Busybox,
    /// procps: `%Cpu(s):  2.3 us, ... 96.7 id, ...` or
    /// `Cpu(s):  2.3%us, ... 96.7%id, ...`.
    Procps,
}

/// The first summary line of `top` output, trimmed, with its format.
pub open spec fn top_line(ls: Seq<Seq<char>>) -> Option<(TopFormat, Seq<char>)>
    decreases ls.len(),
{
    if ls.len() == 0 {
        None
    } else {
        let t = trim(ls[0]);
        if starts_with(t, "CPU:"@) {
            Some((TopFormat::Busybox, t))
        } else if starts_with(lowercase(t), "%cpu"@) || starts_with(lowercase(t), "cpu(s)"@) {
            Some((TopFormat::Procps, t))
        } else {
            top_line(ls.drop_first())
        }
    }
}

/// BusyBox: each word followed by `idle`, without trailing `%`, in order.
pub open spec fn busybox_candidates(words: Seq<Seq<char>>) -> Seq<Seq<char>>
    decreases words.len(),
{
    if words.len() < 2 {
        Seq::empty()
    } else {
        (if words[1] == "idle"@ {
            seq![strip_trailing(words[0], '%')]
        } else {
            Seq::empty()
        }) + busybox_candidates(words.drop_first())
    }
}

/// `i` is the first position of `s` holding a space or `%`.
pub open spec fn is_first_split(s: Seq<char>, i: int) -> bool {
    0 <= i < s.len() && (s[i] == ' ' || s[i] == '%') && forall|j: int|
        0 <= j < i ==> !(s[j] == ' ' || s[j] == '%')
}

/// The position of the first space or `%` of `s`.
pub open spec fn first_split(s: Seq<char>) -> Option<int> {
    if exists|i: int| is_first_split(s, i) {
        Some(choose|i: int| is_first_split(s, i))
    } else {
        None
    }
}

/// procps: for each comma-separated field `VALUE LABEL` or `VALUE%LABEL`
/// whose label is `id` or `idle` (any case), the value without trailing `%`.
pub open spec fn field_candidates(fs: Seq<Seq<char>>) -> Seq<Seq<char>>
    decreases fs.len(),
{
    if fs.len() == 0 {
        Seq::empty()
    } else {
        let f = trim(fs[0]);
        (match first_split(f) {
            Some(j) => {
                let label = lowercase(trim(f.skip(j + 1)));
                if label == "id"@ || label == "idle"@ || starts_with(label, "id,"@) {
                    seq![strip_trailing(f.take(j), '%')]
                } else {
                    Seq::empty()
                }
            },
            None => Seq::empty(),
        }) + field_candidates(fs.drop_first())
    }
}

/// The texts that may hold the idle percentage of `top` output, in the
/// order they are tried: the first that reads as a number is the idle
/// share, and the CPU use is 100 minus it. Only the first summary line
/// counts.
pub open spec fn top_idle_candidates(output: Seq<char>) -> Seq<Seq<char>> {
    match top_line(lines(output)) {
        Some((TopFormat::Busybox, t)) => busybox_candidates(split_ws(t)),
        Some((TopFormat::Procps, t)) => match find_char(t, ':') {
            Some(k) => field_candidates(split_char(t.skip(k + 1), ',')),
            None => Seq::empty(),
        },
        None => Seq::empty(),
    }
}

/// The first summary line of `top` output; see [`top_line`].
fn find_top_line(ls: &Vec<Vec<char>>) -> (r: Option<(TopFormat, Vec<char>)>)
    ensures
        r matches Some(x) ==> top_line(views(ls@)) == Some((x.0, x.1@)),
        r is None ==> top_line(views(ls@)) is None,
{
    let ghost lv = views(ls@);
    let mut i: usize = 0;
    assert(lv.skip(0) =~= lv);
    while i < ls.len()
        invariant
            i <= ls.len(),
            lv == views(ls@),
            top_line(lv) == top_line(lv.skip(i as int)),
        decreases ls.len() - i,
    {
        assert(lv.skip(i as int)[0] == ls@[i as int]@);
        assert(lv.skip(i as int).drop_first() == lv.skip(i + 1));
        let t = trim_chars(&ls[i]);
        if starts_with_lit(&t, "CPU:") {
            return Some((TopFormat::Busybox, t));
        }
        let lower = lowercase_chars(&t);
        if procps_header(&lower) {
            return Some((TopFormat::Procps, t));
        }
        i = i + 1;
    }
    assert(lv.skip(i as int).len() == 0);
    None
}

/// Whether a trimmed, lower-cased `top` line opens the procps CPU summary:
/// it starts with `%cpu` or `cpu(s)`.
pub fn procps_header(lower: &Vec<char>) -> (r: bool)
    ensures
        r == (starts_with(lower@, "%cpu"@) || starts_with(lower@, "cpu(s)"@)),
{
    starts_with_lit(lower, "%cpu") || starts_with_lit(lower, "cpu(s)")
}

/// Whether the trimmed, lower-cased label of a procps field names the idle
/// time: `id`, `idle`, or starting with `id,`.
pub fn idle_label(label: &Vec<char>) -> (r: bool)
    ensures
        r == (label@ == "id"@ || label@ == "idle"@ || starts_with(label@, "id,"@)),
{
    eq_str(label, "id") || eq_str(label, "idle") || starts_with_lit(label, "id,")
}

/// The texts that may hold the idle percentage of `top` output; see
/// [`top_idle_candidates`].
pub fn cpu_top_idle_candidates(output: &str) -> (r: Vec<String>)
    ensures
        string_views(r@) == top_idle_candidates(output@),
{
    let v = chars_of(output);
    let ls = lines_of(&v);
    let mut r: Vec<String> = Vec::new();
    match find_top_line(&ls) {
        None => {
            assert(string_views(r@) =~= Seq::<Seq<char>>::empty());
        },
        Some((TopFormat::Busybox, t)) => {
            let words = split_ws_in(&t);
            let ghost wv = views(words@);
            let mut i: usize = 0;
            assert(wv.skip(0) =~= wv);
            assert(string_views(r@) =~= Seq::<Seq<char>>::empty());
            while words.len() >= 2 && i < words.len() - 1
                invariant
                    i <= words.len(),
                    wv == views(words@),
                    busybox_candidates(wv) == string_views(r@) + busybox_candidates(
                        wv.skip(i as int),
                    ),
                decreases words.len() - i,
            {
                let ghost w = wv.skip(i as int);
                assert(w[0] == words@[i as int]@ && w[1] == words@[i + 1]@);
                assert(w.drop_first() == wv.skip(i + 1));
                let ghost r0 = string_views(r@);
                if eq_str(&words[i + 1], "idle") {
                    let c = strip_trailing_chars(&words[i], '%');
                    r.push(string_of(&c));
                    assert(string_views(r@) =~= r0.push(c@));
                    assert(r0 + busybox_candidates(w) =~= r0.push(c@) + busybox_candidates(
                        wv.skip(i + 1),
                    ));
                } else {
                    assert(r0 + busybox_candidates(w) =~= r0 + busybox_candidates(
                        wv.skip(i + 1),
                    ));
                }
                i = i + 1;
            }
            assert(wv.skip(i as int).len() < 2);
            assert(string_views(r@) + Seq::<Seq<char>>::empty() == string_views(r@));
        },
        Some((TopFormat::Procps, t)) => {
            match find_char_in(&t, ':') {
                None => {
                    assert(string_views(r@) =~= Seq::<Seq<char>>::empty());
                },
                Some(k) => {
                    let after = slice(&t, k + 1, t.len());
                    assert(after@ == t@.skip(k + 1));
                    let fields = split_char_in(&after, ',');
                    let ghost fv = views(fields@);
                    let mut i: usize = 0;
                    assert(fv.skip(0) =~= fv);
                    assert(string_views(r@) =~= Seq::<Seq<char>>::empty());
                    while i < fields.len()
                        invariant
                            i <= fields.len(),
                            fv == views(fields@),
                            field_candidates(fv) == string_views(r@) + field_candidates(
                                fv.skip(i as int),
                            ),
                        decreases fields.len() - i,
                    {
                        let ghost w = fv.skip(i as int);
                        assert(w[0] == fields@[i as int]@);
                        assert(w.drop_first() == fv.skip(i + 1));
                        let ghost r0 = string_views(r@);
                        let f = trim_chars(&fields[i]);
                        let mut j: usize = 0;
                        while j < f.len() && !(f[j] == ' ' || f[j] == '%')
                            invariant
                                j <= f.len(),
                                forall|q: int| 0 <= q < j ==> !(f@[q] == ' ' || f@[q] == '%'),
                            decreases f.len() - j,
                        {
                            j = j + 1;
                        }
                        let mut found = false;
                        if j < f.len() {
                            assert(is_first_split(f@, j as int));
                            let ghost q = choose|q: int| is_first_split(f@, q);
                            assert(q == j) by {
                                if q < j {
                                    assert(!(f@[q] == ' ' || f@[q] == '%'));
                                } else if q > j {
                                    assert(!(f@[j as int] == ' ' || f@[j as int] == '%'));
                                }
                            }
                            let rest = slice(&f, j + 1, f.len());
                            assert(rest@ == f@.skip(j + 1));
                            let rt = trim_chars(&rest);
                            let label = lowercase_chars(&rt);
                            if idle_label(&label) {
                                let head = slice(&f, 0, j);
                                assert(head@ == f@.take(j as int));
                                let c = strip_trailing_chars(&head, '%');
                                r.push(string_of(&c));
                                found = true;
                                assert(string_views(r@) =~= r0.push(c@));
                                assert(r0 + field_candidates(w) =~= r0.push(c@)
                                    + field_candidates(fv.skip(i + 1)));
                            }
                        } else {
                            assert forall|q: int| !is_first_split(f@, q) by {
                                if 0 <= q < f.len() {
                                    assert(!(f@[q] == ' ' || f@[q] == '%'));
                                }
                            }
                        }
                        if !found {
                            assert(r0 + field_candidates(w) =~= r0 + field_candidates(
                                fv.skip(i + 1),
                            ));
                        }
                        i = i + 1;
                    }
                    assert(fv.skip(i as int).len() == 0);
                    assert(string_views(r@) + Seq::<Seq<char>>::empty() == string_views(r@));
                },
            }
        },
    }
    r
}


// ---------------------------------------------------------------------------
// CPU: macOS `top`
// ---------------------------------------------------------------------------

/// The first comma-separated part (trimmed) ending in `idle` (any case).
pub open spec fn idle_part(ps: Seq<Seq<char>>) -> Option<Seq<char>>
    decreases ps.len(),
{
    if ps.len() == 0 {
        None
    } else if ends_with(lowercase(trim(ps[0])), "idle"@) {
        Some(trim(ps[0]))
    } else {
        idle_part(ps.drop_first())
    }
}

/// The idle field of the first `CPU usage:` line (any case) that has one.
pub open spec fn macos_idle_part(ls: Seq<Seq<char>>) -> Option<Seq<char>>
    decreases ls.len(),
{
    if ls.len() == 0 {
        None
    } else if starts_with(lowercase(trim(ls[0])), "cpu usage:"@) && idle_part(
        split_char(ls[0], ','),
    ) is Some {
        idle_part(split_char(ls[0], ','))
    } else {
        macos_idle_part(ls.drop_first())
    }
}

/// The idle percentage text of macOS `top -l 1 -n 0` output
/// (`CPU usage: 3.17% user, 1.56% sys, 95.26% idle`): the first word of the
/// idle field without trailing `%`.
pub open spec fn macos_idle_text(output: Seq<char>) -> Option<Seq<char>> {
    match macos_idle_part(lines(output)) {
        Some(p) => if split_ws(p).len() > 0 {
            Some(strip_trailing(split_ws(p)[0], '%'))
        } else {
            None
        },
        None => None,
    }
}

/// Whether a trimmed, lower-cased part of a macOS CPU line is the idle
/// field: it ends with `idle`.
pub fn idle_ending(lower: &Vec<char>) -> (r: bool)
    ensures
        r == ends_with(lower@, "idle"@),
{
    ends_with_lit(lower, "idle")
}

/// Whether a trimmed, lower-cased line of macOS `top` is the CPU usage
/// line: it starts with `cpu usage:`.
pub fn macos_cpu_line(lower: &Vec<char>) -> (r: bool)
    ensures
        r == starts_with(lower@, "cpu usage:"@),
{
    starts_with_lit(lower, "cpu usage:")
}

/// The first part of a line ending in `idle`; see [`idle_part`].
fn find_idle_part(ps: &Vec<Vec<char>>) -> (r: Option<Vec<char>>)
    ensures
        r matches Some(x) ==> idle_part(views(ps@)) == Some(x@),
        r is None ==> idle_part(views(ps@)) is None,
{
    let ghost pv = views(ps@);
    let mut i: usize = 0;
    assert(pv.skip(0) =~= pv);
    while i < ps.len()
        invariant
            i <= ps.len(),
            pv == views(ps@),
            idle_part(pv) == idle_part(pv.skip(i as int)),
        decreases ps.len() - i,
    {
        assert(pv.skip(i as int)[0] == ps@[i as int]@);
        assert(pv.skip(i as int).drop_first() == pv.skip(i + 1));
        let t = trim_chars(&ps[i]);
        let lower = lowercase_chars(&t);
        if idle_ending(&lower) {
            return Some(t);
        }
        i = i + 1;
    }
    assert(pv.skip(i as int).len() == 0);
    None
}

/// The idle percentage text of macOS `top` output; see [`macos_idle_text`].
pub fn cpu_macos_idle_text(output: &str) -> (r: Option<String>)
    ensures
        r matches Some(x) ==> macos_idle_text(output@) == Some(x@),
        r is None ==> macos_idle_text(output@) is None,
{
    let v = chars_of(output);
    let ls = lines_of(&v);
    let ghost lv = views(ls@);
    let mut i: usize = 0;
    assert(lv.skip(0) =~= lv);
    while i < ls.len()
        invariant
            i <= ls.len(),
            lv == views(ls@),
            lv == lines(output@),
            macos_idle_part(lv) == macos_idle_part(lv.skip(i as int)),
        decreases ls.len() - i,
    {
        assert(lv.skip(i as int)[0] == ls@[i as int]@);
        assert(lv.skip(i as int).drop_first() == lv.skip(i + 1));
        let t = trim_chars(&ls[i]);
        let lower = lowercase_chars(&t);
        if macos_cpu_line(&lower) {
            let parts = split_char_in(&ls[i], ',');
            match find_idle_part(&parts) {
                Some(p) => {
                    let words = split_ws_in(&p);
                    if words.len() > 0 {
                        let c = strip_trailing_chars(&words[0], '%');
                        return Some(string_of(&c));
                    } else {
                        return None;
                    }
                },
                None => {},
            }
        }
        i = i + 1;
    }
    assert(lv.skip(i as int).len() == 0);
    None
}

// ---------------------------------------------------------------------------
// Memory: `free -b`
// ---------------------------------------------------------------------------

/// The first line of `free` output starting (after spaces) with `Mem:`.
pub open spec fn mem_line(ls: Seq<Seq<char>>) -> Option<Seq<char>>
    decreases ls.len(),
{
    if ls.len() == 0 {
        None
    } else if starts_with(trim_start(ls[0]), "Mem:"@) {
        Some(ls[0])
    } else {
        mem_line(ls.drop_first())
    }
}

/// The total and available memory texts of `free -b` output: the `total`
/// field and the `available` field (seventh) when present, else the `free`
/// field (fourth, as BusyBox prints it); `None` without a `Mem:` line or
/// with fewer than four fields.
pub open spec fn free_fields(output: Seq<char>) -> Option<(Seq<char>, Seq<char>)> {
    match mem_line(lines(output)) {
        Some(l) => {
            let f = split_ws(l);
            if f.len() > 6 {
                Some((f[1], f[6]))
            } else if f.len() > 3 {
                Some((f[1], f[3]))
            } else {
                None
            }
        },
        None => None,
    }
}

/// The total and available memory texts of `free -b` output; see
/// [`free_fields`]. Memory use is `(total - available) / total`.
pub fn ram_free_fields(output: &str) -> (r: Option<(String, String)>)
    ensures
        r matches Some(x) ==> free_fields(output@) == Some((x.0@, x.1@)),
        r is None ==> free_fields(output@) is None,
{
    let v = chars_of(output);
    let ls = lines_of(&v);
    let ghost lv = views(ls@);
    let mut i: usize = 0;
    assert(lv.skip(0) =~= lv);
    while i < ls.len()
        invariant
            i <= ls.len(),
            lv == views(ls@),
            lv == lines(output@),
            mem_line(lv) == mem_line(lv.skip(i as int)),
        decreases ls.len() - i,
    {
        assert(lv.skip(i as int)[0] == ls@[i as int]@);
        assert(lv.skip(i as int).drop_first() == lv.skip(i + 1));
        let t = trim_start_chars(&ls[i]);
        if starts_with_lit(&t, "Mem:") {
            let f = split_ws_in(&ls[i]);
            if f.len() > 6 {
                return Some((string_of(&f[1]), string_of(&f[6])));
            } else if f.len() > 3 {
                return Some((string_of(&f[1]), string_of(&f[3])));
            } else {
                return None;
            }
        }
        i = i + 1;
    }
    assert(lv.skip(i as int).len() == 0);
    None
}

// ---------------------------------------------------------------------------
// Disk: `df -k /`
// ---------------------------------------------------------------------------

/// The first header of `df` naming the use column (`Use%` or `Capacity`,
/// possibly with a prefix).
pub open spec fn use_column(hs: Seq<Seq<char>>) -> Option<int>
    decreases hs.len(),
{
    if hs.len() == 0 {
        None
    } else if ends_with(hs.last(), "Use%"@) || ends_with(hs.last(), "Capacity"@) {
        match use_column(hs.drop_last()) {
            Some(k) => Some(k),
            None => Some(hs.len() - 1),
        }
    } else {
        use_column(hs.drop_last())
    }
}

/// The use percentage text of `df -k /` output: the field of the first data
/// line under the `Use%` or `Capacity` header, without trailing `%`.
pub open spec fn df_use_text(output: Seq<char>) -> Option<Seq<char>> {
    let ls = lines(output);
    if ls.len() < 2 {
        None
    } else {
        let d = split_ws(ls[1]);
        match use_column(split_ws(ls[0])) {
            Some(k) => if k < d.len() {
                Some(strip_trailing(d[k], '%'))
            } else {
                None
            },
            None => None,
        }
    }
}

/// The use percentage text of `df -k /` output; see [`df_use_text`].
pub fn disk_df_use_text(output: &str) -> (r: Option<String>)
    ensures
        r matches Some(x) ==> df_use_text(output@) == Some(x@),
        r is None ==> df_use_text(output@) is None,
{
    let v = chars_of(output);
    let ls = lines_of(&v);
    if ls.len() < 2 {
        return None;
    }
    let hs = split_ws_in(&ls[0]);
    let ds = split_ws_in(&ls[1]);
    let ghost hv = views(hs@);
    assert(views(ls@)[0] == ls@[0]@ && views(ls@)[1] == ls@[1]@);
    assert(hv == split_ws(lines(output@)[0]));
    assert(views(ds@) == split_ws(lines(output@)[1]));
    let mut i: usize = 0;
    assert(hv.take(0) =~= Seq::<Seq<char>>::empty());
    while i < hs.len()
        invariant
            i <= hs.len(),
            hv == views(hs@),
            hv == split_ws(lines(output@)[0]),
            views(ds@) == split_ws(lines(output@)[1]),
            lines(output@).len() >= 2,
            use_column(hv.take(i as int)) is None,
        decreases hs.len() - i,
    {
        assert(hv.take(i + 1).drop_last() == hv.take(i as int));
        assert(hv.take(i + 1).last() == hs@[i as int]@);
        if ends_with_lit(&hs[i], "Use%") || ends_with_lit(&hs[i], "Capacity") {
            proof {
                assert(use_column(hv.take(i + 1)) == Some(i as int));
                lemma_use_column_prefix(hv, (i + 1) as int);
            }
            assert(views(ds@).len() == ds.len());
            if i < ds.len() {
                assert(views(ds@)[i as int] == ds@[i as int]@);
                let c = strip_trailing_chars(&ds[i], '%');
                return Some(string_of(&c));
            } else {
                return None;
            }
        }
        i = i + 1;
    }
    assert(hv.take(hs.len() as int) == hv);
    None
}

/// A column found in a prefix of the headers is the column of all of them.
proof fn lemma_use_column_prefix(hs: Seq<Seq<char>>, k: int)
    requires
        0 <= k <= hs.len(),
        use_column(hs.take(k)) is Some,
    ensures
        use_column(hs) == use_column(hs.take(k)),
    decreases hs.len() - k,
{
    if k < hs.len() {
        assert(hs.take(k + 1).drop_last() == hs.take(k));
        lemma_use_column_prefix(hs, k + 1);
    } else {
        assert(hs.take(k) == hs);
    }
}


// ---------------------------------------------------------------------------
// CPU: `/proc/stat`
// ---------------------------------------------------------------------------

/// The words of `ws` that read as `u64`, in order.
pub open spec fn u64_words(ws: Seq<Seq<char>>) -> Seq<int>
    decreases ws.len(),
{
    if ws.len() == 0 {
        Seq::empty()
    } else {
        let prev = u64_words(ws.drop_last());
        match parse_unsigned(ws.last(), u64::MAX as int) {
            Some(x) => prev.push(x),
            None => prev,
        }
    }
}

/// The time counters of the first line of `/proc/stat` (`cpu  user nice
/// system idle iowait ...`): the later words that read as `u64`; `None`
/// unless the first word starts with `cpu` and at least four counters follow.
pub open spec fn proc_stat_counters(output: Seq<char>) -> Option<Seq<int>> {
    let ls = lines(output);
    if ls.len() == 0 || split_ws(ls[0]).len() == 0 || !starts_with(split_ws(ls[0])[0], "cpu"@) {
        None
    } else {
        let vals = u64_words(split_ws(ls[0]).drop_first());
        if vals.len() < 4 {
            None
        } else {
            Some(vals)
        }
    }
}

/// The time counters of `/proc/stat`; see [`proc_stat_counters`]. The idle
/// time is the fourth plus the fifth (iowait); CPU use is the share of the
/// rest in the total.
pub fn cpu_proc_stat_counters(output: &str) -> (r: Option<Vec<u64>>)
    ensures
        r matches Some(x) ==> proc_stat_counters(output@) == Some(
            x@.map_values(|n: u64| n as int),
        ),
        r is None ==> proc_stat_counters(output@) is None,
{
    let v = chars_of(output);
    let ls = lines_of(&v);
    if ls.len() == 0 {
        return None;
    }
    let ws = split_ws_in(&ls[0]);
    assert(views(ls@)[0] == ls@[0]@);
    if ws.len() == 0 || !starts_with_lit(&ws[0], "cpu") {
        assert(ws.len() > 0 ==> views(ws@)[0] == ws@[0]@);
        return None;
    }
    assert(views(ws@)[0] == ws@[0]@);
    let ghost rest = views(ws@).drop_first();
    let mut vals: Vec<u64> = Vec::new();
    let mut i: usize = 1;
    assert(rest.take(0) =~= Seq::<Seq<char>>::empty());
    assert(vals@.map_values(|n: u64| n as int) =~= Seq::<int>::empty());
    while i < ws.len()
        invariant
            1 <= i <= ws.len(),
            rest == views(ws@).drop_first(),
            vals@.map_values(|n: u64| n as int) == u64_words(rest.take(i - 1)),
        decreases ws.len() - i,
    {
        assert(rest.take(i as int).drop_last() == rest.take(i - 1));
        assert(rest.take(i as int).last() == ws@[i as int]@);
        match parse_u64(&ws[i]) {
            Some(x) => {
                let ghost v0 = vals@;
                vals.push(x);
                assert(vals@.map_values(|n: u64| n as int) =~= v0.map_values(|n: u64| n as int).push(
                    x as int,
                ));
            },
            None => {},
        }
        i = i + 1;
    }
    assert(rest.take(ws.len() - 1) == rest);
    if vals.len() < 4 {
        None
    } else {
        Some(vals)
    }
}

} // verus!
