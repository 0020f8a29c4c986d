//! Quick Scan probe script and parsing of its sectioned output.
//!
//! The probe prints each part of its output after a marker line
//! `===OMNYSSH:NAME===`; [`ProbeOutput::parse`] files the text between markers
//! under the marker's name.

use vstd::prelude::*;

use crate::text::{
    chars_of, push_all, push_char, str_eq, ends_with, ends_with_lit, lines, lines_of, slice, starts_with, starts_with_lit, string_of,
    trim, trim_chars, trim_end, trim_start, views,
};

verus! {

/// The Quick Scan probe: one bash script whose sections are delimited by
/// `===OMNYSSH:NAME===` markers. Every command discards its stderr so that a
/// missing tool only leaves its section empty.
pub const QUICK_SCAN_SCRIPT: &'static str = r#"cat << 'OMNYSSH_PROBE_EOF' | bash
echo "===OMNYSSH:OS==="
cat /etc/os-release 2>/dev/null | head -5
echo "===OMNYSSH:SERVICES==="
systemctl list-units --type=service --state=running --no-pager --no-legend 2>/dev/null | awk '{print $1}' | head -50
echo "===OMNYSSH:DOCKER==="
docker ps --format '{{.ID}}\t{{.Names}}\t{{.Status}}\t{{.Image}}' 2>/dev/null | head -30
echo "===OMNYSSH:LISTEN==="
ss -tlnp 2>/dev/null | tail -n +2 | head -30
echo "===OMNYSSH:PROCESS==="
ps aux --sort=-%mem 2>/dev/null | head -15
OMNYSSH_PROBE_EOF
"#;

/// Returns the Quick Scan probe script.
pub fn generate_quick_scan_script() -> (s: &'static str)
    ensures
        s@ == QUICK_SCAN_SCRIPT@,
{
    QUICK_SCAN_SCRIPT
}

// ---------------------------------------------------------------------------
// Specification of the parse
// ---------------------------------------------------------------------------

pub open spec fn marker_prefix() -> Seq<char> {
    "===OMNYSSH:"@
}

pub open spec fn marker_suffix() -> Seq<char> {
    "==="@
}

/// A trimmed line that opens a section.
pub open spec fn is_marker(t: Seq<char>) -> bool {
    starts_with(t, marker_prefix()) && ends_with(t, marker_suffix())
}

/// The section name carried by a marker line: the text between the prefix
/// and the suffix (empty when they overlap).
pub open spec fn marker_name(t: Seq<char>) -> Seq<char> {
    let r = t.subrange(marker_prefix().len() as int, t.len() as int);
    if ends_with(r, marker_suffix()) {
        r.subrange(0, r.len() - marker_suffix().len())
    } else {
        Seq::empty()
    }
}

/// Parser state: sections filed so far, the open section, its text so far.
pub type ProbeScan = (Map<Seq<char>, Seq<char>>, Option<Seq<char>>, Seq<char>);

/// Files the open section (if any) with its trimmed text.
pub open spec fn flush(st: ProbeScan) -> Map<Seq<char>, Seq<char>> {
    match st.1 {
        Some(n) => st.0.insert(n, trim(st.2)),
        None => st.0,
    }
}

/// One line of probe output: a marker opens a new section (filing the
/// previous one); any other line is kept, with its line end, in the open
/// section; lines before the first marker are ignored.
pub open spec fn probe_step(st: ProbeScan, line: Seq<char>) -> ProbeScan {
    let t = trim(line);
    if is_marker(t) {
        (flush(st), Some(marker_name(t)), Seq::empty())
    } else if st.1 is Some {
        (st.0, st.1, st.2 + line + seq!['\n'])
    } else {
        st
    }
}

pub open spec fn probe_scan(ls: Seq<Seq<char>>) -> ProbeScan
    decreases ls.len(),
{
    if ls.len() == 0 {
        (Map::empty(), None, Seq::empty())
    } else {
        probe_step(probe_scan(ls.drop_last()), ls.last())
    }
}

/// The sections of a probe output: name to trimmed text. A name that occurs
/// twice keeps its last text.
pub open spec fn probe_sections(output: Seq<char>) -> Map<Seq<char>, Seq<char>> {
    flush(probe_scan(lines(output)))
}

/// The marker line that opens the section `name`.
pub open spec fn marker_line(name: Seq<char>) -> Seq<char> {
    marker_prefix() + name + marker_suffix()
}

/// Lines as a section keeps them: each followed by a line end.
pub open spec fn section_text(body: Seq<Seq<char>>) -> Seq<char>
    decreases body.len(),
{
    if body.len() == 0 {
        Seq::empty()
    } else {
        section_text(body.drop_last()) + body.last() + seq!['\n']
    }
}

proof fn lemma_marker_line(name: Seq<char>)
    ensures
        trim(marker_line(name)) == marker_line(name),
        is_marker(marker_line(name)),
        marker_name(marker_line(name)) == name,
{
    reveal_strlit("===OMNYSSH:");
    reveal_strlit("===");
    let m = marker_line(name);
    assert(m[0] == '=');
    assert(m.last() == '=');
    assert(trim_start(m) == m);
    assert(trim_end(m) == m);
    assert(m.take(marker_prefix().len() as int) =~= marker_prefix());
    assert(m.skip(m.len() - marker_suffix().len()) =~= marker_suffix());
    let r = m.subrange(marker_prefix().len() as int, m.len() as int);
    assert(r =~= name + marker_suffix());
    assert(r.skip(r.len() - marker_suffix().len()) =~= marker_suffix());
    assert(r.subrange(0, r.len() - marker_suffix().len()) =~= name);
}

proof fn lemma_scan_after_marker(before: Seq<Seq<char>>, name: Seq<char>, body: Seq<Seq<char>>)
    requires
        forall|i: int| 0 <= i < body.len() ==> !is_marker(trim(#[trigger] body[i])),
    ensures
        probe_scan(before.push(marker_line(name)) + body) == (
            flush(probe_scan(before)),
            Some(name),
            section_text(body),
        ),
    decreases body.len(),
{
    let x = before.push(marker_line(name)) + body;
    if body.len() == 0 {
        assert(x =~= before.push(marker_line(name)));
        assert(x.drop_last() =~= before);
        lemma_marker_line(name);
    } else {
        let b0 = body.drop_last();
        assert forall|i: int| 0 <= i < b0.len() implies !is_marker(trim(#[trigger] b0[i])) by {
            assert(b0[i] == body[i]);
        }
        lemma_scan_after_marker(before, name, b0);
        assert(x.drop_last() =~= before.push(marker_line(name)) + b0);
        assert(x.last() == body.last());
        assert(body[body.len() - 1] == body.last());
    }
}

/// Probe output read back: lines written under the marker line of `name`,
/// none of them itself a marker, are the section `name`, trimmed, with each
/// line followed by a line end; the sections filed before stay as they
/// were but for `name`.
pub proof fn lemma_section_round_trip(before: Seq<Seq<char>>, name: Seq<char>, body: Seq<
    Seq<char>,
>)
    requires
        forall|i: int| 0 <= i < body.len() ==> !is_marker(trim(#[trigger] body[i])),
    ensures
        flush(probe_scan(before.push(marker_line(name)) + body)) == flush(probe_scan(before)).insert(
            name,
            trim(section_text(body)),
        ),
{
    lemma_scan_after_marker(before, name, body);
}

// ---------------------------------------------------------------------------
// Section storage
// ---------------------------------------------------------------------------

/// The map that a list of (name, text) entries stands for.
pub open spec fn section_map(v: Seq<(String, String)>) -> Map<Seq<char>, Seq<char>>
    decreases v.len(),
{
    if v.len() == 0 {
        Map::empty()
    } else {
        section_map(v.drop_last()).insert(v.last().0@, v.last().1@)
    }
}

/// No two entries share a name.
pub open spec fn names_distinct(v: Seq<(String, String)>) -> bool {
    forall|i: int, j: int| 0 <= i < v.len() && 0 <= j < v.len() && i != j ==> v[i].0@ != v[j].0@
}

pub proof fn lemma_section_map(v: Seq<(String, String)>)
    requires
        names_distinct(v),
    ensures
        forall|k: Seq<char>| #[trigger]
            section_map(v).contains_key(k) <==> exists|i: int| 0 <= i < v.len() && v[i].0@ == k,
        forall|i: int| 0 <= i < v.len() ==> section_map(v)[#[trigger] v[i].0@] == v[i].1@,
    decreases v.len(),
{
    if v.len() > 0 {
        let w = v.drop_last();
        assert(names_distinct(w));
        lemma_section_map(w);
        assert forall|k: Seq<char>| #[trigger]
            section_map(v).contains_key(k) <==> exists|i: int| 0 <= i < v.len() && v[i].0@ == k by {
            if section_map(w).contains_key(k) {
                let i = choose|i: int| 0 <= i < w.len() && w[i].0@ == k;
                assert(v[i].0@ == k);
            }
            if exists|i: int| 0 <= i < v.len() && v[i].0@ == k {
                let i = choose|i: int| 0 <= i < v.len() && v[i].0@ == k;
                if i < v.len() - 1 {
                    assert(w[i].0@ == k);
                }
            }
        }
        assert forall|i: int| 0 <= i < v.len() implies section_map(v)[#[trigger] v[i].0@]
            == v[i].1@ by {
            if i < v.len() - 1 {
                assert(w[i] == v[i]);
                assert(v[i].0@ != v[v.len() - 1].0@);
            }
        }
    }
}

/// Files `content` under `name`, replacing an earlier text of that name.
fn set_section(secs: &mut Vec<(String, String)>, name: String, content: String)
    requires
        names_distinct(old(secs)@),
    ensures
        names_distinct(final(secs)@),
        section_map(final(secs)@) == section_map(old(secs)@).insert(name@, content@),
{
    let ghost v0 = secs@;
    let ghost n = name@;
    proof {
        lemma_section_map(v0);
    }
    let mut i: usize = 0;
    while i < secs.len() && secs[i].0 != name
        invariant
            i <= secs.len(),
            forall|j: int| 0 <= j < i ==> secs@[j].0@ != name@,
        decreases secs.len() - i,
    {
        i = i + 1;
    }
    if i < secs.len() {
        assert(v0[i as int].0@ == n);
        secs.set(i, (name, content));
        let ghost v1 = secs@;
        assert(forall|a: int| 0 <= a < v1.len() ==> #[trigger] v1[a].0@ == v0[a].0@);
        assert(names_distinct(v1)) by {
            assert forall|a: int, b: int|
                0 <= a < v1.len() && 0 <= b < v1.len() && a != b implies v1[a].0@
                != v1[b].0@ by {
                assert(v0[a].0@ != v0[b].0@);
            }
        }
        proof {
            lemma_section_map(v1);
            let m0 = section_map(v0).insert(n, content@);
            assert forall|k: Seq<char>| #[trigger]
                section_map(v1).contains_key(k) <==> m0.contains_key(k) by {
                if k == n {
                    assert(v1[i as int].0@ == k);
                }
                if m0.contains_key(k) && k != n {
                    assert(section_map(v0).contains_key(k));
                    let j = choose|j: int| 0 <= j < v0.len() && v0[j].0@ == k;
                    assert(v1[j].0@ == k);
                }
                if section_map(v1).contains_key(k) {
                    let j = choose|j: int| 0 <= j < v1.len() && v1[j].0@ == k;
                    if j != i {
                        assert(v0[j].0@ == k);
                    }
                }
            }
            assert forall|k: Seq<char>| #[trigger]
                section_map(v1).contains_key(k) implies section_map(v1)[k] == m0[k] by {
                let j = choose|j: int| 0 <= j < v1.len() && v1[j].0@ == k;
                if j != i {
                    assert(v0[j] == v1[j]);
                    assert(v0[j].0@ == k);
                }
            }
            assert(section_map(v1) =~= m0);
        }
    } else {
        secs.push((name, content));
        assert(secs@.drop_last() == v0);
        assert(names_distinct(secs@)) by {
            assert forall|a: int, b: int|
                0 <= a < secs@.len() && 0 <= b < secs@.len() && a != b implies secs@[a].0@
                != secs@[b].0@ by {
                if a < v0.len() && b < v0.len() {
                    assert(v0[a].0@ != v0[b].0@);
                }
            }
        }
    }
}

// ---------------------------------------------------------------------------
// ProbeOutput
// ---------------------------------------------------------------------------

/// Parsed output of the probe script, organised by section.
#[derive(Debug)]
pub struct ProbeOutput {
    sections: Vec<(String, String)>,
}

impl View for ProbeOutput {
    type V = Map<Seq<char>, Seq<char>>;

    closed spec fn view(&self) -> Map<Seq<char>, Seq<char>> {
        section_map(self.sections@)
    }
}

impl Clone for ProbeOutput {
    fn clone(&self) -> (r: Self)
        ensures
            r@ == self@,
    {
        proof {
            use_type_invariant(self);
        }
        let mut v: Vec<(String, String)> = Vec::new();
        let mut i: usize = 0;
        while i < self.sections.len()
            invariant
                i <= self.sections.len(),
                v.len() == i,
                forall|j: int| 0 <= j < i ==> #[trigger] v@[j] == self.sections@[j],
            decreases self.sections.len() - i,
        {
            let e = &self.sections[i];
            v.push((e.0.clone(), e.1.clone()));
            i = i + 1;
        }
        assert(v@ =~= self.sections@);
        ProbeOutput { sections: v }
    }
}

impl Default for ProbeOutput {
    fn default() -> (r: Self)
        ensures
            r@ == Map::<Seq<char>, Seq<char>>::empty(),
    {
        ProbeOutput { sections: Vec::new() }
    }
}

impl ProbeOutput {
    /// No two sections share a name.
    #[verifier::type_invariant]
    spec fn inv(&self) -> bool {
        names_distinct(self.sections@)
    }

    /// Parses probe output into sections.
    ///
    /// Never fails: text outside any section, and malformed output, are
    /// ignored.
    pub fn parse(output: &str) -> (r: Result<Self, anyhow::Error>)
        ensures
            r matches Ok(p) && p@ == probe_sections(output@),
    {
        let v = chars_of(output);
        let ls = lines_of(&v);
        let mut secs: Vec<(String, String)> = Vec::new();
        let mut cur: Option<String> = None;
        let mut content: Vec<char> = Vec::new();
        let mut i: usize = 0;
        while i < ls.len()
            invariant
                i <= ls.len(),
                views(ls@) == lines(output@),
                names_distinct(secs@),
                ({
                    let st = probe_scan(views(ls@).take(i as int));
                    &&& section_map(secs@) == st.0
                    &&& (match cur {
                        Some(c) => st.1 == Some(c@),
                        None => st.1 is None,
                    })
                    &&& content@ == st.2
                }),
            decreases ls.len() - i,
        {
            let line = &ls[i];
            let ghost lv = views(ls@);
            assert(lv.take(i + 1).drop_last() == lv.take(i as int));
            assert(lv.take(i + 1).last() == line@);
            let t = trim_chars(line);
            if is_marker_exec(&t) {
                match cur {
                    Some(name) => {
                        let tc = trim_chars(&content);
                        let ts = string_of(&tc);
                        set_section(&mut secs, name, ts);
                    },
                    None => {},
                }
                let nm = marker_name_exec(&t);
                cur = Some(string_of(&nm));
                content = Vec::new();
            } else if cur.is_some() {
                let ghost c0 = content@;
                let mut k: usize = 0;
                while k < line.len()
                    invariant
                        k <= line.len(),
                        content@ == c0 + line@.subrange(0, k as int),
                    decreases line.len() - k,
                {
                    content.push(line[k]);
                    k = k + 1;
                    assert(content@ == c0 + line@.subrange(0, k as int));
                }
                content.push('\n');
                assert(line@.subrange(0, line.len() as int) == line@);
            }
            i = i + 1;
        }
        assert(views(ls@).take(ls.len() as int) == views(ls@));
        match cur {
            Some(name) => {
                let tc = trim_chars(&content);
                let ts = string_of(&tc);
                set_section(&mut secs, name, ts);
            },
            None => {},
        }
        assert(names_distinct(secs@));
        Ok(ProbeOutput { sections: secs })
    }

    /// Position of the section called `name`.
    fn index_of(&self, name: &str) -> (r: Option<usize>)
        ensures
            r matches Some(i) ==> i < self.sections@.len() && self.sections@[i as int].0@
                == name@ && self@.contains_key(name@) && self@[name@]
                == self.sections@[i as int].1@,
            r is None ==> !self@.contains_key(name@),
    {
        proof {
            use_type_invariant(self);
        }
        proof {
            lemma_section_map(self.sections@);
        }
        let mut i: usize = 0;
        while i < self.sections.len()
            invariant
                i <= self.sections.len(),
                names_distinct(self.sections@),
                forall|j: int| 0 <= j < i ==> self.sections@[j].0@ != name@,
            decreases self.sections.len() - i,
        {
            if str_eq(self.sections[i].0.as_str(), name) {
                proof {
                    lemma_section_map(self.sections@);
                }
                return Some(i);
            }
            i = i + 1;
        }
        None
    }

    /// Whether the section `name` exists and has non-empty text.
    pub fn has_section(&self, name: &str) -> (r: bool)
        ensures
            r == (self@.contains_key(name@) && self@[name@].len() > 0),
    {
        match self.index_of(name) {
            Some(i) => {
                let t = chars_of(self.sections[i].1.as_str());
                t.len() > 0
            },
            None => false,
        }
    }

    /// The text of the section `name`, or `None` if there is no such section.
    pub fn get_section(&self, name: &str) -> (r: Option<&str>)
        ensures
            r matches Some(t) ==> self@.contains_key(name@) && t@ == self@[name@],
            r is None ==> !self@.contains_key(name@),
    {
        match self.index_of(name) {
            Some(i) => Some(self.sections[i].1.as_str()),
            None => None,
        }
    }

    /// The names of all sections, each once.
    pub fn section_names(&self) -> (r: Vec<&str>)
        ensures
            forall|k: Seq<char>|
                self@.contains_key(k) <==> exists|i: int| 0 <= i < r.len() && (#[trigger] r@[i])@ == k,
            forall|i: int, j: int| 0 <= i < r.len() && 0 <= j < r.len() && i != j ==> r@[i]@ != r@[j]@,
    {
        proof {
            use_type_invariant(self);
        }
        proof {
            lemma_section_map(self.sections@);
        }
        let mut r: Vec<&str> = Vec::new();
        let mut i: usize = 0;
        while i < self.sections.len()
            invariant
                i <= self.sections.len(),
                r.len() == i,
                forall|j: int| 0 <= j < i ==> (#[trigger] r@[j])@ == self.sections@[j].0@,
            decreases self.sections.len() - i,
        {
            r.push(self.sections[i].0.as_str());
            i = i + 1;
        }
        assert forall|k: Seq<char>|
            self@.contains_key(k) <==> exists|i: int| 0 <= i < r.len() && (#[trigger] r@[i])@ == k by {
            if self@.contains_key(k) {
                let j = choose|j: int| 0 <= j < self.sections@.len() && self.sections@[j].0@ == k;
                assert(r@[j]@ == k);
            }
            if exists|i: int| 0 <= i < r.len() && (#[trigger] r@[i])@ == k {
                let j = choose|j: int| 0 <= j < r.len() && (#[trigger] r@[j])@ == k;
                assert(self.sections@[j].0@ == k);
            }
        }
        r
    }

    /// A readable OS description from the `OS` section (`/etc/os-release`
    /// lines): `PRETTY_NAME` if present, otherwise `NAME` followed by
    /// `VERSION`, otherwise `NAME` alone.
    pub fn parse_os_info(&self) -> (r: Option<String>)
        ensures
            r matches Some(t) ==> self@.contains_key("OS"@) && Some(t@) == os_info(self@["OS"@]),
            r is None ==> !self@.contains_key("OS"@) || os_info(self@["OS"@]) is None,
    {
        let sec = match self.get_section("OS") {
            Some(t) => t,
            None => return None,
        };
        let v = chars_of(sec);
        let ls = lines_of(&v);
        let mut name: Option<Vec<char>> = None;
        let mut version: Option<Vec<char>> = None;
        let mut pretty: Option<Vec<char>> = None;
        let mut i: usize = 0;
        while i < ls.len()
            invariant
                i <= ls.len(),
                views(ls@) == lines(sec@),
                ({
                    let st = os_scan(views(ls@).take(i as int));
                    &&& opt_view(name) == st.0
                    &&& opt_view(version) == st.1
                    &&& opt_view(pretty) == st.2
                }),
            decreases ls.len() - i,
        {
            let ghost lv = views(ls@);
            assert(lv.take(i + 1).drop_last() == lv.take(i as int));
            assert(lv.take(i + 1).last() == ls@[i as int]@);
            let t = trim_chars(&ls[i]);
            if starts_with_lit(&t, "PRETTY_NAME=") {
                pretty = extract_value(&t, "PRETTY_NAME=");
            } else if starts_with_lit(&t, "NAME=") {
                name = extract_value(&t, "NAME=");
            } else if starts_with_lit(&t, "VERSION=") {
                version = extract_value(&t, "VERSION=");
            }
            i = i + 1;
        }
        assert(views(ls@).take(ls.len() as int) == views(ls@));
        match pretty {
            Some(p) => Some(string_of(&p)),
            None => match (name, version) {
                (Some(n), Some(ver)) => {
                    let mut s = string_of(&n);
                    push_char(&mut s, ' ');
                    push_all(&mut s, &ver);
                    Some(s)
                },
                (Some(n), None) => Some(string_of(&n)),
                _ => None,
            },
        }
    }
}

/// The view of an optional character vector.
pub open spec fn opt_view(o: Option<Vec<char>>) -> Option<Seq<char>> {
    match o {
        Some(v) => Some(v@),
        None => None,
    }
}

/// The value of an os-release line `PREFIXvalue`: the trimmed value, with
/// one pair of surrounding double or single quotes removed.
pub open spec fn os_value(line: Seq<char>, prefix: Seq<char>) -> Option<Seq<char>> {
    if !starts_with(line, prefix) {
        None
    } else {
        let v = trim(line.subrange(prefix.len() as int, line.len() as int));
        if v.len() >= 2 && ((v[0] == '"' && v.last() == '"') || (v[0] == '\'' && v.last()
            == '\'')) {
            Some(v.subrange(1, v.len() - 1))
        } else {
            Some(v)
        }
    }
}

/// Scan state of the OS section: (NAME, VERSION, PRETTY_NAME).
pub type OsScan = (Option<Seq<char>>, Option<Seq<char>>, Option<Seq<char>>);

pub open spec fn os_step(st: OsScan, line: Seq<char>) -> OsScan {
    let t = trim(line);
    if starts_with(t, "PRETTY_NAME="@) {
        (st.0, st.1, os_value(t, "PRETTY_NAME="@))
    } else if starts_with(t, "NAME="@) {
        (os_value(t, "NAME="@), st.1, st.2)
    } else if starts_with(t, "VERSION="@) {
        (st.0, os_value(t, "VERSION="@), st.2)
    } else {
        st
    }
}

pub open spec fn os_scan(ls: Seq<Seq<char>>) -> OsScan
    decreases ls.len(),
{
    if ls.len() == 0 {
        (None, None, None)
    } else {
        os_step(os_scan(ls.drop_last()), ls.last())
    }
}

/// The OS description of an OS section.
pub open spec fn os_info(section: Seq<char>) -> Option<Seq<char>> {
    let st = os_scan(lines(section));
    match st.2 {
        Some(p) => Some(p),
        None => match (st.0, st.1) {
            (Some(n), Some(v)) => Some(n + seq![' '] + v),
            (Some(n), None) => Some(n),
            _ => None,
        },
    }
}

/// The value of an os-release line that starts with `prefix`.
fn extract_value(line: &Vec<char>, prefix: &str) -> (r: Option<Vec<char>>)
    requires
        starts_with(line@, prefix@),
    ensures
        opt_view(r) == os_value(line@, prefix@),
{
    let p = chars_of(prefix);
    let rest = slice(line, p.len(), line.len());
    let v = trim_chars(&rest);
    let n = v.len();
    if n >= 2 && ((v[0] == '"' && v[n - 1] == '"') || (v[0] == '\'' && v[n - 1] == '\'')) {
        Some(slice(&v, 1, n - 1))
    } else {
        Some(v)
    }
}

/// Whether a trimmed line is a section marker.
fn is_marker_exec(t: &Vec<char>) -> (r: bool)
    ensures
        r == is_marker(t@),
{
    starts_with_lit(t, "===OMNYSSH:") && ends_with_lit(t, "===")
}

/// The section name of a marker line.
fn marker_name_exec(t: &Vec<char>) -> (r: Vec<char>)
    requires
        is_marker(t@),
    ensures
        r@ == marker_name(t@),
{
    let p = chars_of("===OMNYSSH:");
    let rest = slice(t, p.len(), t.len());
    if ends_with_lit(&rest, "===") {
        let s = chars_of("===");
        slice(&rest, 0, rest.len() - s.len())
    } else {
        Vec::new()
    }
}

} // verus!
