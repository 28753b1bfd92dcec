//! Plasma appletsrc parsing (panel orientation), machine detection rules,
//! and the well-known file locations they read.

use vstd::prelude::*;

use crate::config::assets::{parent_or_dot, parent_or_dot_of, path_parent};
use crate::numbers::{parse_i64_chars, parse_signed};
use crate::text::{
    char_views, copy_range, find_char, find_char_from, find_sub, find_sub_chars, is_space, join_path,
    lemma_find_char, lemma_lex_asymmetric, lemma_lex_total, lemma_split_nonempty, lex_lt, owned,
    path_join, push_chars, push_str, split_chars, split_on, starts_with, starts_with_chars, str_eq,
    str_less, to_chars, trim, trim_chars,
};

verus! {

broadcast use vstd::string::group_string_axioms;

/// Location of the live Plasma appletsrc under a home directory.
pub fn plasma_appletsrc_path(home: &str) -> (r: String)
    ensures
        r@ == path_join(path_join(home@, ".config"@), "plasma-org.kde.plasma.desktop-appletsrc"@),
{
    let dir = join_path(home, ".config");
    join_path(dir.as_str(), "plasma-org.kde.plasma.desktop-appletsrc")
}

/// Location of the persistent geometry cache under a home directory.
pub fn geom_cache_path(home: &str) -> (r: String)
    ensures
        r@ == path_join(path_join(path_join(home@, ".cache"@), "plasma-top"@), "geom"@),
{
    let cache = join_path(home, ".cache");
    let dir = join_path(cache.as_str(), "plasma-top");
    join_path(dir.as_str(), "geom")
}

/// The DMI board and product name files.
pub fn dmi_paths() -> (r: (String, String))
    ensures
        r.0@ == "/sys/class/dmi/id/board_name"@,
        r.1@ == "/sys/class/dmi/id/product_name"@,
{
    (owned("/sys/class/dmi/id/board_name"), owned("/sys/class/dmi/id/product_name"))
}

/// Default parent for an explicit config path.
pub fn config_parent_dir(config_path: &str) -> (r: String)
    ensures
        r@ == parent_or_dot_of(path_parent(config_path@)),
{
    parent_or_dot(config_path)
}

// ── KDE ini text ───────────────────────────────────────────────────────────

/// `line` without a final carriage return.
pub open spec fn strip_cr(line: Seq<char>) -> Seq<char> {
    if line.len() > 0 && line.last() == '\r' {
        line.drop_last()
    } else {
        line
    }
}

/// The lines of a text as `str::lines` yields them: cut at `\n`, a `\r`
/// before the `\n` removed, and no empty line after a final `\n`.
pub open spec fn text_lines(t: Seq<char>) -> Seq<Seq<char>> {
    let p = split_on(t, '\n');
    Seq::new((p.len() - 1) as nat, |i: int| strip_cr(p[i])) + (if p.last().len() > 0 {
        seq![p.last()]
    } else {
        Seq::empty()
    })
}

/// A section header line: `[...]`.
pub open spec fn is_header(line: Seq<char>) -> bool {
    line.len() > 0 && line[0] == '[' && line.last() == ']'
}

/// An ini file as a map from section header to its key/value map, and the
/// section the next key line belongs to. A header opens (or reopens) its
/// section; a `key=value` line under a section sets the trimmed key to the
/// trimmed value, a later line winning; other lines are ignored.
pub open spec fn ini_state(lines: Seq<Seq<char>>) -> (Map<Seq<char>, Map<Seq<char>, Seq<char>>>, Option<Seq<char>>)
    decreases lines.len(),
{
    if lines.len() == 0 {
        (Map::empty(), None)
    } else {
        let (m, cur) = ini_state(lines.drop_last());
        let l = lines.last();
        if is_header(l) {
            (
                if m.dom().contains(l) {
                    m
                } else {
                    m.insert(l, Map::empty())
                },
                Some(l),
            )
        } else {
            match cur {
                Some(h) => match find_char(l, '=') {
                    Some(j) => (m.insert(h, m[h].insert(trim(l.take(j)), trim(l.skip(j + 1)))), cur),
                    None => (m, cur),
                },
                None => (m, cur),
            }
        }
    }
}

/// The sections of an ini text.
pub open spec fn ini_sections(text: Seq<char>) -> Map<Seq<char>, Map<Seq<char>, Seq<char>>> {
    ini_state(text_lines(text)).0
}

/// The key/value assignments of a section, a later one winning.
pub open spec fn assignments(entries: Seq<(String, String)>) -> Map<Seq<char>, Seq<char>>
    decreases entries.len(),
{
    if entries.len() == 0 {
        Map::empty()
    } else {
        assignments(entries.drop_last()).insert(entries.last().0@, entries.last().1@)
    }
}

/// One section of a KDE ini file.
#[derive(Debug, Clone, PartialEq, Eq)]
pub struct KdeSection {
    entries: Vec<(String, String)>,
}

impl KdeSection {
    /// The section's keys and values.
    pub closed spec fn view(&self) -> Map<Seq<char>, Seq<char>> {
        assignments(self.entries@)
    }

    /// The value of `key`, if the section sets it.
    pub fn get(&self, key: &str) -> (r: Option<&String>)
        ensures
            match r {
                Some(v) => self.view().dom().contains(key@) && self.view()[key@] == v@,
                None => !self.view().dom().contains(key@),
            },
    {
        let mut k: usize = self.entries.len();
        assert(self.entries@.take(k as int) =~= self.entries@);
        while k > 0
            invariant
                k <= self.entries@.len(),
                forall|j: int| k <= j < self.entries@.len() ==> (#[trigger] self.entries@[j]).0@ != key@,
                assignments(self.entries@).dom().contains(key@) == assignments(self.entries@.take(k as int)).dom().contains(key@),
                assignments(self.entries@).dom().contains(key@) ==> assignments(self.entries@)[key@] == assignments(self.entries@.take(k as int))[key@],
            decreases k,
        {
            let t = Ghost(self.entries@.take(k as int));
            assert(t@.drop_last() =~= self.entries@.take(k - 1));
            assert(t@.last() == self.entries@[k - 1]);
            if str_eq(self.entries[k - 1].0.as_str(), key) {
                return Some(&self.entries[k - 1].1);
            }
            k = k - 1;
        }
        None
    }
}

/// The view of a list of sections with distinct headers.
pub open spec fn sections_view(secs: Seq<(String, KdeSection)>) -> Map<Seq<char>, Map<Seq<char>, Seq<char>>>
    decreases secs.len(),
{
    if secs.len() == 0 {
        Map::empty()
    } else {
        sections_view(secs.drop_last()).insert(secs.last().0@, secs.last().1.view())
    }
}

/// Headers of a section list are distinct.
pub open spec fn distinct_headers(secs: Seq<(String, KdeSection)>) -> bool {
    forall|i: int, j: int| 0 <= i < j < secs.len() ==> (#[trigger] secs[i]).0@ != (#[trigger] secs[j]).0@
}

/// A parsed KDE ini file: sections by header.
#[derive(Debug, PartialEq, Eq)]
pub struct KdeIni {
    sections: Vec<(String, KdeSection)>,
}

proof fn lemma_sections_view_dom(secs: Seq<(String, KdeSection)>, h: Seq<char>)
    requires
        distinct_headers(secs),
    ensures
        sections_view(secs).dom().contains(h) <==> exists|i: int| 0 <= i < secs.len() && secs[i].0@ == h,
        forall|i: int| 0 <= i < secs.len() && secs[i].0@ == h ==> sections_view(secs)[h] == secs[i].1.view(),
    decreases secs.len(),
{
    if secs.len() > 0 {
        let t = secs.drop_last();
        assert forall|i: int, j: int| 0 <= i < j < t.len() implies (#[trigger] t[i]).0@ != (#[trigger] t[j]).0@ by {
            assert(t[i] == secs[i] && t[j] == secs[j]);
        }
        lemma_sections_view_dom(t, h);
        if exists|i: int| 0 <= i < secs.len() && secs[i].0@ == h {
            let i = choose|i: int| 0 <= i < secs.len() && secs[i].0@ == h;
            if i < t.len() {
                assert(t[i] == secs[i]);
            }
        }
        if exists|i: int| 0 <= i < t.len() && t[i].0@ == h {
            let i = choose|i: int| 0 <= i < t.len() && t[i].0@ == h;
            assert(t[i] == secs[i]);
        }
        assert forall|i: int| 0 <= i < secs.len() && secs[i].0@ == h implies sections_view(secs)[h]
            == secs[i].1.view() by {
            if i < t.len() {
                assert(t[i] == secs[i]);
                assert(secs[i].0@ != secs[secs.len() - 1].0@);
            }
        }
    }
}

impl KdeIni {
    #[verifier::type_invariant]
    spec fn headers_distinct(self) -> bool {
        distinct_headers(self.sections@)
    }

    /// The file's sections.
    pub closed spec fn view(&self) -> Map<Seq<char>, Map<Seq<char>, Seq<char>>> {
        sections_view(self.sections@)
    }

    /// The section under `header`, if the file has one.
    pub fn get(&self, header: &str) -> (r: Option<&KdeSection>)
        ensures
            match r {
                Some(s) => self.view().dom().contains(header@) && self.view()[header@] == s.view(),
                None => !self.view().dom().contains(header@),
            },
    {
        proof {
            use_type_invariant(self);
            lemma_sections_view_dom(self.sections@, header@);
        }
        let mut k: usize = 0;
        while k < self.sections.len()
            invariant
                k <= self.sections@.len(),
                distinct_headers(self.sections@),
                forall|j: int| 0 <= j < k ==> (#[trigger] self.sections@[j]).0@ != header@,
            decreases self.sections@.len() - k,
        {
            if str_eq(self.sections[k].0.as_str(), header) {
                proof {
                    lemma_sections_view_dom(self.sections@, header@);
                }
                return Some(&self.sections[k].1);
            }
            k = k + 1;
        }
        None
    }
}


/// Replacing one section's contents changes only that header's entry.
proof fn lemma_sections_view_update(secs: Seq<(String, KdeSection)>, c: int, sec: KdeSection)
    requires
        distinct_headers(secs),
        0 <= c < secs.len(),
    ensures
        sections_view(secs.update(c, (secs[c].0, sec))) == sections_view(secs).insert(secs[c].0@, sec.view()),
    decreases secs.len(),
{
    let u = secs.update(c, (secs[c].0, sec));
    let t = secs.drop_last();
    if c == secs.len() - 1 {
        assert(u.drop_last() =~= t);
        assert forall|h: Seq<char>| #[trigger] sections_view(u).dom().contains(h) == sections_view(secs).insert(
            secs[c].0@,
            sec.view(),
        ).dom().contains(h) by {}
        assert(sections_view(u) =~= sections_view(secs).insert(secs[c].0@, sec.view()));
    } else {
        assert forall|i: int, j: int| 0 <= i < j < t.len() implies (#[trigger] t[i]).0@ != (#[trigger] t[j]).0@ by {
            assert(t[i] == secs[i] && t[j] == secs[j]);
        }
        lemma_sections_view_update(t, c, sec);
        assert(u.drop_last() =~= t.update(c, (t[c].0, sec)));
        assert(secs[c].0@ != secs.last().0@);
        assert(sections_view(u) =~= sections_view(secs).insert(secs[c].0@, sec.view()));
    }
}

/// The lines of a text (see [`text_lines`]).
pub fn lines_of(text: &str) -> (r: Vec<Vec<char>>)
    ensures
        char_views(r@) == text_lines(text@),
{
    let chars = to_chars(text);
    let pieces = split_chars(chars.as_slice(), '\n');
    proof {
        lemma_split_nonempty(text@, '\n');
    }
    let ghost p = split_on(text@, '\n');
    let n = pieces.len();
    let mut out: Vec<Vec<char>> = Vec::new();
    let mut i: usize = 0;
    while i + 1 < n
        invariant
            i < n,
            n == pieces@.len(),
            char_views(pieces@) == p,
            char_views(out@) == Seq::new(i as nat, |k: int| strip_cr(p[k])),
        decreases n - i,
    {
        let piece = &pieces[i];
        assert(piece@ == p[i as int]);
        let len = piece.len();
        let line = if len > 0 && piece[len - 1] == '\r' {
            let l = copy_range(piece.as_slice(), 0, len - 1);
            assert(l@ =~= p[i as int].drop_last());
            l
        } else {
            let l = copy_range(piece.as_slice(), 0, len);
            assert(l@ =~= p[i as int]);
            l
        };
        assert(line@ == strip_cr(p[i as int]));
        let ghost prev = char_views(out@);
        out.push(line);
        assert(char_views(out@) =~= prev.push(strip_cr(p[i as int])));
        i = i + 1;
        assert(char_views(out@) =~= Seq::new(i as nat, |k: int| strip_cr(p[k])));
    }
    let last = &pieces[n - 1];
    assert(last@ == p.last());
    if last.len() > 0 {
        let l = copy_range(last.as_slice(), 0, last.len());
        assert(l@ =~= p.last());
        out.push(l);
    }
    assert(char_views(out@) =~= text_lines(text@));
    out
}

/// Index of the section whose header is `h`.
fn section_index(secs: &Vec<(String, KdeSection)>, h: &str) -> (r: Option<usize>)
    ensures
        match r {
            Some(i) => i < secs@.len() && secs@[i as int].0@ == h@,
            None => forall|i: int| 0 <= i < secs@.len() ==> (#[trigger] secs@[i]).0@ != h@,
        },
{
    let mut k: usize = 0;
    while k < secs.len()
        invariant
            k <= secs@.len(),
            forall|j: int| 0 <= j < k ==> (#[trigger] secs@[j]).0@ != h@,
        decreases secs@.len() - k,
    {
        if str_eq(secs[k].0.as_str(), h) {
            return Some(k);
        }
        k = k + 1;
    }
    None
}

/// Parses a KDE ini text (see [`ini_sections`]).
pub fn parse_kde_ini(text: &str) -> (r: KdeIni)
    ensures
        r.view() == ini_sections(text@),
{
    let lines = lines_of(text);
    let ghost ls = text_lines(text@);
    let mut sections: Vec<(String, KdeSection)> = Vec::new();
    let mut current: Option<usize> = None;
    let mut i: usize = 0;
    while i < lines.len()
        invariant
            i <= lines@.len(),
            char_views(lines@) == ls,
            distinct_headers(sections@),
            sections_view(sections@) == ini_state(ls.take(i as int)).0,
            match ini_state(ls.take(i as int)).1 {
                Some(h) => current matches Some(c) && c < sections@.len() && sections@[c as int].0@ == h,
                None => current is None,
            },
        decreases lines@.len() - i,
    {
        let line = &lines[i];
        assert(line@ == ls[i as int]);
        proof {
            let t = ls.take(i as int + 1);
            assert(t.drop_last() =~= ls.take(i as int));
            assert(t.last() == ls[i as int]);
            lemma_sections_view_dom(sections@, line@);
        }
        let n = line.len();
        if n > 0 && line[0] == '[' && line[n - 1] == ']' {
            let header = crate::text::string_from_chars(line.as_slice());
            match section_index(&sections, header.as_str()) {
                Some(idx) => {
                    current = Some(idx);
                },
                None => {
                    let ghost before = sections@;
                    sections.push((header, KdeSection { entries: Vec::new() }));
                    proof {
                        assert(sections@.drop_last() =~= before);
                        assert(assignments(Seq::<(String, String)>::empty()) == Map::<Seq<char>, Seq<char>>::empty());
                        assert forall|a: int, b: int| 0 <= a < b < sections@.len() implies (
                        #[trigger] sections@[a]).0@ != (#[trigger] sections@[b]).0@ by {
                            if b == sections@.len() - 1 {
                                assert(sections@[a] == before[a]);
                            } else {
                                assert(sections@[a] == before[a] && sections@[b] == before[b]);
                            }
                        }
                    }
                    current = Some(sections.len() - 1);
                },
            }
        } else {
            if let Some(c) = current {
                assert(c < sections@.len());
                match find_char_from(line.as_slice(), 0, '=') {
                    Some(j) => {
                        assert(line@.skip(0) =~= line@);
                        proof {
                            lemma_find_char(line@, '=');
                        }
                        let key_chars = copy_range(line.as_slice(), 0, j);
                        let value_chars = copy_range(line.as_slice(), j + 1, n);
                        assert(key_chars@ =~= line@.take(j as int));
                        assert(value_chars@ =~= line@.skip(j + 1));
                        let key = trim_chars(key_chars.as_slice());
                        let value = trim_chars(value_chars.as_slice());
                        let ghost before = sections@;
                        let (h, mut sec) = sections.remove(c);
                        let ghost old_sec = sec;
                        let k_s = crate::text::string_from_chars(key.as_slice());
                        let v_s = crate::text::string_from_chars(value.as_slice());
                        sec.entries.push((k_s, v_s));
                        proof {
                            assert(sec.entries@.drop_last() =~= old_sec.entries@);
                            assert(sec.view() == old_sec.view().insert(key@, value@));
                        }
                        sections.insert(c, (h, sec));
                        proof {
                            assert(sections@ =~= before.update(c as int, (before[c as int].0, sec)));
                            lemma_sections_view_update(before, c as int, sec);
                            lemma_sections_view_dom(before, before[c as int].0@);
                            assert forall|a: int, b: int| 0 <= a < b < sections@.len() implies (
                            #[trigger] sections@[a]).0@ != (#[trigger] sections@[b]).0@ by {
                                assert(sections@[a].0 == before[a].0 && sections@[b].0 == before[b].0);
                            }
                        }
                    },
                    None => {
                        assert(line@.skip(0) =~= line@);
                    },
                }
            }
        }
        i = i + 1;
    }
    assert(ls.take(ls.len() as int) =~= ls);
    KdeIni { sections }
}


// ── Panel orientation ──────────────────────────────────────────────────────

/// Whether `s` is one or more ASCII digits.
pub open spec fn digits_only(s: Seq<char>) -> bool {
    s.len() > 0 && forall|i: int| 0 <= i < s.len() ==> '0' <= #[trigger] s[i] && s[i] <= '9'
}

/// Whether `s` is a chain of `[Applets][<digits>]` groups (possibly none).
pub open spec fn applet_chain(s: Seq<char>) -> bool
    decreases s.len(),
{
    if s.len() == 0 {
        true
    } else if starts_with(s, "[Applets]["@) {
        let b = s.skip("[Applets]["@.len() as int);
        match find_char(b, ']') {
            Some(j) => 0 <= j < b.len() && digits_only(b.take(j)) && applet_chain(b.skip(j + 1)),
            None => false,
        }
    } else {
        false
    }
}

/// The containment number of an applet root header:
/// `[Containments][<digits>]` followed by one or more
/// `[Applets][<digits>]` groups and nothing else.
pub open spec fn applet_root(h: Seq<char>) -> Option<Seq<char>> {
    if starts_with(h, "[Containments]["@) {
        let a = h.skip("[Containments]["@.len() as int);
        match find_char(a, ']') {
            Some(j) => {
                let tail = a.skip(j + 1);
                if digits_only(a.take(j)) && tail.len() > 0 && applet_chain(tail) {
                    Some(a.take(j))
                } else {
                    None
                }
            },
            None => None,
        }
    } else {
        None
    }
}

fn all_digits(v: &[char]) -> (r: bool)
    ensures
        r == digits_only(v@),
{
    if v.len() == 0 {
        return false;
    }
    let mut k: usize = 0;
    while k < v.len()
        invariant
            k <= v@.len(),
            forall|i: int| 0 <= i < k ==> '0' <= #[trigger] v@[i] && v@[i] <= '9',
        decreases v@.len() - k,
    {
        if !('0' <= v[k] && v[k] <= '9') {
            return false;
        }
        k = k + 1;
    }
    true
}

/// Whether `v[from..]` is an applet chain (see [`applet_chain`]).
fn is_applet_chain(v: &[char], from: usize) -> (r: bool)
    requires
        from <= v@.len(),
    ensures
        r == applet_chain(v@.skip(from as int)),
    decreases v@.len() - from,
{
    proof {
        reveal_strlit("[Applets][");
    }
    let rest = copy_range(v, from, v.len());
    assert(rest@ =~= v@.skip(from as int));
    if rest.len() == 0 {
        return true;
    }
    if !starts_with_chars(rest.as_slice(), "[Applets][") {
        return false;
    }
    let b_start: usize = from + 10;
    let b = copy_range(v, b_start, v.len());
    assert(b@ =~= rest@.skip(10));
    match find_char_from(b.as_slice(), 0, ']') {
        None => {
            assert(b@.skip(0) =~= b@);
            false
        },
        Some(j) => {
            assert(b@.skip(0) =~= b@);
            proof {
                lemma_find_char(b@, ']');
            }
            let num = copy_range(b.as_slice(), 0, j);
            assert(num@ =~= b@.take(j as int));
            if !all_digits(num.as_slice()) {
                return false;
            }
            assert(v@.skip(b_start + j + 1) =~= b@.skip(j + 1));
            is_applet_chain(v, b_start + j + 1)
        },
    }
}

/// Returns the containment number of an applet root header (see
/// [`applet_root`]).
pub fn applet_root_containment(header: &str) -> (r: Option<String>)
    ensures
        match applet_root(header@) {
            Some(c) => r matches Some(x) && x@ == c,
            None => r is None,
        },
{
    proof {
        reveal_strlit("[Containments][");
    }
    let h = to_chars(header);
    if !starts_with_chars(h.as_slice(), "[Containments][") {
        return None;
    }
    let a = copy_range(h.as_slice(), 15, h.len());
    assert(a@ =~= h@.skip(15));
    match find_char_from(a.as_slice(), 0, ']') {
        None => {
            assert(a@.skip(0) =~= a@);
            None
        },
        Some(j) => {
            assert(a@.skip(0) =~= a@);
            proof {
                lemma_find_char(a@, ']');
            }
            let num = copy_range(a.as_slice(), 0, j);
            assert(num@ =~= a@.take(j as int));
            if !all_digits(num.as_slice()) || j + 1 >= a.len() {
                return None;
            }
            if !is_applet_chain(a.as_slice(), j + 1) {
                return None;
            }
            Some(crate::text::string_from_chars(num.as_slice()))
        },
    }
}

/// The plugin id of this widget.
pub const TARGET_PLUGIN: &'static str = "com.github.bogdan-d.plasma-top";

/// `h` is an applet root section of this widget.
pub open spec fn targets(m: Map<Seq<char>, Map<Seq<char>, Seq<char>>>, h: Seq<char>) -> bool {
    &&& m.dom().contains(h)
    &&& applet_root(h) is Some
    &&& m[h].dom().contains("plugin"@)
    &&& m[h]["plugin"@] == TARGET_PLUGIN@
}

/// The first (in header order) applet root section of this widget.
pub open spec fn first_target(m: Map<Seq<char>, Map<Seq<char>, Seq<char>>>) -> Seq<char> {
    choose|h: Seq<char>| targets(m, h) && forall|h2: Seq<char>| targets(m, h2) ==> !lex_lt(h2, h)
}

/// A `location` value of a top or bottom panel: the integer 3 or 4.
pub open spec fn horizontal_location(v: Seq<char>) -> bool {
    parse_signed(v, i64::MIN as int, i64::MAX as int) == Some(3int) || parse_signed(
        v,
        i64::MIN as int,
        i64::MAX as int,
    ) == Some(4int)
}

/// The panel orientation an appletsrc gives: horizontal when this widget's
/// containment sits at the top or bottom edge; vertical otherwise, and
/// when the widget is not found.
pub open spec fn vertical_from(m: Map<Seq<char>, Map<Seq<char>, Seq<char>>>) -> bool {
    if exists|h: Seq<char>| targets(m, h) {
        let ch = "[Containments]["@ + applet_root(first_target(m))->0 + "]"@;
        !(m.dom().contains(ch) && m[ch].dom().contains("location"@) && horizontal_location(m[ch]["location"@]))
    } else {
        true
    }
}

/// Panel orientation from the appletsrc text (see [`vertical_from`]).
pub fn detect_vertical_from_appletsrc_text(text: &str) -> (r: bool)
    ensures
        r == vertical_from(ini_sections(text@)),
{
    let ini = parse_kde_ini(text);
    proof {
        use_type_invariant(&ini);
    }
    let ghost m = ini.view();
    let ghost secs = ini.sections@;
    let mut best: Option<usize> = None;
    let mut best_root: String = String::new();
    let mut k: usize = 0;
    while k < ini.sections.len()
        invariant
            k <= secs.len(),
            secs == ini.sections@,
            m == sections_view(secs),
            distinct_headers(secs),
            match best {
                Some(b) => b < k && targets(m, secs[b as int].0@) && applet_root(secs[b as int].0@) == Some(
                    best_root@,
                ) && forall|i: int| 0 <= i < k && targets(m, (#[trigger] secs[i]).0@) ==> !lex_lt(
                    secs[i].0@,
                    secs[b as int].0@,
                ),
                None => forall|i: int| 0 <= i < k ==> !targets(m, (#[trigger] secs[i]).0@),
            },
        decreases secs.len() - k,
    {
        let header = ini.sections[k].0.as_str();
        proof {
            lemma_sections_view_dom(secs, header@);
        }
        if let Some(root) = applet_root_containment(header) {
            match ini.sections[k].1.get("plugin") {
                Some(plugin) => {
                    if str_eq(plugin.as_str(), TARGET_PLUGIN) {
                        assert(targets(m, header@));
                        let better = match best {
                            None => true,
                            Some(b) => str_less(header, ini.sections[b].0.as_str()),
                        };
                        if better {
                            proof {
                                if let Some(b) = best {
                                    assert forall|i: int| 0 <= i < k + 1 && targets(m, (#[trigger] secs[i]).0@) implies !lex_lt(
                                        secs[i].0@,
                                        header@,
                                    ) by {
                                        if i < k {
                                            lemma_lex_asymmetric(secs[i].0@, secs[b as int].0@);
                                            lemma_lex_total(secs[i].0@, secs[b as int].0@);
                                            if lex_lt(secs[i].0@, header@) {
                                                crate::text::lemma_lex_transitive(secs[i].0@, header@, secs[b as int].0@);
                                            }
                                        } else {
                                            crate::text::lemma_lex_irreflexive(header@);
                                        }
                                    }
                                } else {
                                    crate::text::lemma_lex_irreflexive(header@);
                                }
                            }
                            best = Some(k);
                            best_root = root;
                        } else {
                            proof {
                                let b = best->0;
                                lemma_lex_total(header@, secs[b as int].0@);
                                assert(secs[b as int].0@ != header@);
                                lemma_lex_asymmetric(secs[b as int].0@, header@);
                            }
                        }
                    } else {
                        assert(!targets(m, header@));
                    }
                },
                None => {
                    assert(!targets(m, header@));
                },
            }
        } else {
            assert(!targets(m, header@));
        }
        k = k + 1;
    }
    match best {
        None => {
            proof {
                if exists|h: Seq<char>| targets(m, h) {
                    let h = choose|h: Seq<char>| targets(m, h);
                    lemma_sections_view_dom(secs, h);
                    let i = choose|i: int| 0 <= i < secs.len() && secs[i].0@ == h;
                    assert(!targets(m, secs[i].0@));
                }
            }
            true
        },
        Some(b) => {
            let ghost bh = secs[b as int].0@;
            proof {
                assert forall|h2: Seq<char>| targets(m, h2) implies !lex_lt(h2, bh) by {
                    lemma_sections_view_dom(secs, h2);
                    let i = choose|i: int| 0 <= i < secs.len() && secs[i].0@ == h2;
                    assert(targets(m, secs[i].0@));
                }
                let f = first_target(m);
                assert(targets(m, f) && forall|h2: Seq<char>| targets(m, h2) ==> !lex_lt(h2, f));
                lemma_lex_total(f, bh);
                assert(f == bh);
            }
            let mut ch = owned("[Containments][");
            push_str(&mut ch, best_root.as_str());
            push_str(&mut ch, "]");
            match ini.get(ch.as_str()) {
                None => true,
                Some(sec) => match sec.get("location") {
                    None => true,
                    Some(loc) => {
                        let lc = to_chars(loc.as_str());
                        match parse_i64_chars(lc.as_slice()) {
                            Some(v) => !(v == 3 || v == 4),
                            None => true,
                        }
                    },
                },
            }
        },
    }
}


// ── Machine detection ──────────────────────────────────────────────────────

/// The detection rules of one machine block (`[<name>.detect]`): each
/// pattern is optional, and an empty one is ignored.
#[derive(Debug, Clone, PartialEq, Eq)]
pub struct MachineRule {
    /// The machine block's name.
    pub name: String,
    /// Matches when the board name contains it.
    pub board_contains: Option<String>,
    /// Matches when the board name starts with it.
    pub board_startswith: Option<String>,
    /// Matches when the product name contains it.
    pub product_contains: Option<String>,
}

/// A non-empty pattern.
pub open spec fn pattern(p: Option<String>) -> Option<Seq<char>> {
    match p {
        Some(s) => if s@.len() > 0 {
            Some(s@)
        } else {
            None
        },
        None => None,
    }
}

/// Whether a machine rule matches the DMI board and product names.
pub open spec fn rule_matches(r: MachineRule, board: Seq<char>, product: Seq<char>) -> bool {
    ||| (pattern(r.board_contains) matches Some(p) && find_sub(board, p, 0) is Some)
    ||| (pattern(r.board_startswith) matches Some(p) && starts_with(board, p))
    ||| (pattern(r.product_contains) matches Some(p) && find_sub(product, p, 0) is Some)
}

/// The name of the first rule that matches.
pub open spec fn first_machine(rules: Seq<MachineRule>, board: Seq<char>, product: Seq<char>) -> Option<Seq<char>>
    decreases rules.len(),
{
    if rules.len() == 0 {
        None
    } else if rule_matches(rules[0], board, product) {
        Some(rules[0].name@)
    } else {
        first_machine(rules.drop_first(), board, product)
    }
}

fn contains_text(hay: &[char], needle: &String) -> (r: bool)
    ensures
        r == (find_sub(hay@, needle@, 0) is Some),
{
    let n = to_chars(needle.as_str());
    find_sub_chars(hay, n.as_slice(), 0).is_some()
}

fn matches_rule(r: &MachineRule, board: &[char], product: &[char]) -> (m: bool)
    ensures
        m == rule_matches(*r, board@, product@),
{
    let board_hit = match &r.board_contains {
        Some(p) => p.as_str().unicode_len() > 0 && contains_text(board, p),
        None => false,
    };
    let start_hit = match &r.board_startswith {
        Some(p) => p.as_str().unicode_len() > 0 && starts_with_chars(board, p.as_str()),
        None => false,
    };
    let product_hit = match &r.product_contains {
        Some(p) => p.as_str().unicode_len() > 0 && contains_text(product, p),
        None => false,
    };
    board_hit || start_hit || product_hit
}

/// Returns the name of the first machine rule that matches the given DMI
/// board and product names (see [`first_machine`]).
pub fn detect_machine_with_dmi(rules: &[MachineRule], board: &str, product: &str) -> (r: Option<String>)
    ensures
        match first_machine(rules@, board@, product@) {
            Some(n) => r matches Some(x) && x@ == n,
            None => r is None,
        },
{
    let b = to_chars(board);
    let p = to_chars(product);
    let mut k: usize = 0;
    assert(rules@.skip(0) =~= rules@);
    while k < rules.len()
        invariant
            k <= rules@.len(),
            b@ == board@,
            p@ == product@,
            first_machine(rules@, board@, product@) == first_machine(rules@.skip(k as int), board@, product@),
        decreases rules@.len() - k,
    {
        assert(rules@.skip(k as int)[0] == rules@[k as int]);
        assert(rules@.skip(k as int).drop_first() =~= rules@.skip(k + 1));
        if matches_rule(&rules[k], b.as_slice(), p.as_slice()) {
            return Some(rules[k].name.clone());
        }
        k = k + 1;
    }
    None
}

} // verus!
