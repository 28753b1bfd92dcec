//! The daemon's decisions that do not touch the system: its file layout,
//! the page shown, the tooltip footer, the stylesheet text, and the
//! desktop colour it reads.

use vstd::prelude::*;

use crate::cli::{page_choice, RenderPage};
use crate::page_commands::registry_ids;
use crate::numbers::{parse_i32_chars, parse_i64_chars, parse_signed};
use crate::render::model::join_with;
use crate::runtime;
use crate::text::{
    copy_range, find_sub, kept, find_sub_chars, join_path, lemma_find_sub, lemma_split_nonempty, occurs_at,
    occurs_at_chars, path_join, push_all, push_str, split_chars, split_on, starts_with, starts_with_chars,
    string_from_chars, to_chars, trim, trim_chars, words, words_of,
};

verus! {

broadcast use vstd::string::group_string_axioms;

/// Paths owned by one daemon instance.
#[derive(Debug, Clone, PartialEq, Eq)]
pub struct DaemonPaths {
    /// Watched runtime root.
    pub runtime: String,
    /// Runtime state subtree.
    pub state: String,
    /// Panel publication target.
    pub panel: String,
    /// Tooltip publication target.
    pub tooltip: String,
    /// Page counter.
    pub page: String,
    /// Published page count.
    pub npages: String,
    /// Geometry publication.
    pub geom: String,
    /// Plasma applet configuration.
    pub plasma_config: String,
    /// KDE color scheme configuration.
    pub kdeglobals: String,
}

impl DaemonPaths {
    /// The paths under a runtime root and a home directory.
    pub fn under(runtime_root: &str, home: &str) -> (r: DaemonPaths)
        ensures
            r.runtime@ == runtime_root@,
            r.state@ == path_join(runtime_root@, "state"@),
            r.panel@ == path_join(runtime_root@, "panel.html"@),
            r.tooltip@ == path_join(runtime_root@, "tooltip.html"@),
            r.page@ == path_join(path_join(runtime_root@, "state"@), "page"@),
            r.npages@ == path_join(path_join(runtime_root@, "state"@), "npages"@),
            r.geom@ == path_join(path_join(runtime_root@, "state"@), "geom"@),
            r.plasma_config@ == path_join(path_join(home@, ".config"@), "plasma-org.kde.plasma.desktop-appletsrc"@),
            r.kdeglobals@ == path_join(path_join(home@, ".config"@), "kdeglobals"@),
    {
        let config = join_path(home, ".config");
        DaemonPaths {
            runtime: crate::text::owned(runtime_root),
            state: runtime::state_dir(runtime_root),
            panel: runtime::panel_file(runtime_root),
            tooltip: runtime::tooltip_file(runtime_root),
            page: runtime::page_file(runtime_root),
            npages: runtime::npages_file(runtime_root),
            geom: runtime::geom_file(runtime_root),
            plasma_config: join_path(config.as_str(), "plasma-org.kde.plasma.desktop-appletsrc"),
            kdeglobals: join_path(config.as_str(), "kdeglobals"),
        }
    }
}

/// The stable page id of a CLI render page.
pub open spec fn page_token(page: RenderPage) -> Seq<char> {
    match page {
        RenderPage::Full => "full"@,
        RenderPage::Processes => "processes"@,
        RenderPage::CpuCores => "cpu_cores"@,
        RenderPage::Connections => "connections"@,
        RenderPage::Fastfetch => "fastfetch"@,
        RenderPage::Graphs => "graphs"@,
    }
}

/// Converts a CLI render page to its stable page id.
pub fn render_page_id(page: RenderPage) -> (r: &'static str)
    ensures
        r@ == page_token(page),
{
    match page {
        RenderPage::Full => "full",
        RenderPage::Processes => "processes",
        RenderPage::CpuCores => "cpu_cores",
        RenderPage::Connections => "connections",
        RenderPage::Fastfetch => "fastfetch",
        RenderPage::Graphs => "graphs",
    }
}

/// Every page the command line can ask for, but the full tooltip, names a
/// page of the registry, so a page list of that one id keeps it; distinct
/// pages have distinct ids; and each id is read back as its page.
pub proof fn lemma_cli_pages_are_registered(p: RenderPage, q: RenderPage)
    ensures
        p != RenderPage::Full ==> registry_ids().contains(page_token(p)),
        p != RenderPage::Full ==> kept(seq![page_token(p)], |x: Seq<char>| registry_ids().contains(x))
            == seq![page_token(p)],
        page_token(p) == page_token(q) ==> p == q,
        page_choice(page_token(p)) == Some(p),
{
    reveal_strlit("full");
    reveal_strlit("processes");
    reveal_strlit("cpu_cores");
    reveal_strlit("connections");
    reveal_strlit("fastfetch");
    reveal_strlit("graphs");
    let ids = registry_ids();
    if p != RenderPage::Full {
        let k = match p {
            RenderPage::Processes => 0int,
            RenderPage::Connections => 1,
            RenderPage::Fastfetch => 2,
            RenderPage::CpuCores => 3,
            _ => 4,
        };
        assert(ids[k] == page_token(p));
        let one = seq![page_token(p)];
        let keep = |x: Seq<char>| registry_ids().contains(x);
        assert(one.drop_last() =~= Seq::<Seq<char>>::empty());
        assert(one.last() == page_token(p));
        assert(keep(one.last()));
        assert(kept(one.drop_last(), keep) == one.drop_last());
        assert(kept(one, keep) == kept(one.drop_last(), keep).push(one.last()));
        assert(kept(one, keep) =~= one);
    }
    let t = page_token(p);
    assert(t[0] != 'f' || t[1] != 'u' ==> t != "full"@);
    assert(t[0] != 'p' ==> t != "processes"@);
    assert(t[0] != 'c' || t[1] != 'p' ==> t != "cpu_cores"@);
    assert(t[0] != 'c' || t[1] != 'o' ==> t != "connections"@);
    assert(t[0] != 'f' || t[1] != 'a' ==> t != "fastfetch"@);
    if page_token(p) == page_token(q) {
        assert(page_token(p).len() == page_token(q).len());
        assert(page_token(p)[0] == page_token(q)[0]);
        assert(page_token(p)[1] == page_token(q)[1]);
    }
}

// ── Colours ────────────────────────────────────────────────────────────────

/// The text of an `i32` as `i32::from_str` reads it.
pub open spec fn i32_text(s: Seq<char>) -> Option<int> {
    parse_signed(s, i32::MIN as int, i32::MAX as int)
}

/// KDE's `r,g,b` colour value: the first three comma-separated fields,
/// trimmed, as integers; further fields (alpha) are ignored.
pub open spec fn rgb_of(text: Seq<char>) -> Option<(int, int, int)> {
    let f = split_on(text, ',');
    if f.len() < 3 {
        None
    } else {
        match (i32_text(trim(f[0])), i32_text(trim(f[1])), i32_text(trim(f[2]))) {
            (Some(r), Some(g), Some(b)) => Some((r, g, b)),
            _ => None,
        }
    }
}

/// Parses KDE's `r,g,b` value (see [`rgb_of`]).
pub fn parse_rgb(text: &str) -> (r: Option<(i32, i32, i32)>)
    ensures
        match rgb_of(text@) {
            Some((a, b, c)) => r == Some((a as i32, b as i32, c as i32)),
            None => r is None,
        },
{
    let chars = to_chars(text);
    let fields = split_chars(chars.as_slice(), ',');
    if fields.len() < 3 {
        return None;
    }
    let ghost f = split_on(text@, ',');
    assert(fields@[0]@ == f[0] && fields@[1]@ == f[1] && fields@[2]@ == f[2]);
    let a = trim_chars(fields[0].as_slice());
    let b = trim_chars(fields[1].as_slice());
    let c = trim_chars(fields[2].as_slice());
    match (parse_i32_chars(a.as_slice()), parse_i32_chars(b.as_slice()), parse_i32_chars(c.as_slice())) {
        (Some(x), Some(y), Some(z)) => Some((x, y, z)),
        _ => None,
    }
}

/// The window background of a kdeglobals text: the `BackgroundNormal`
/// value of the `[Colors:Window]` group, from the first such line on;
/// scanning continues from line `i` with `in_window` telling whether the
/// group is open.
pub open spec fn background_from(lines: Seq<Seq<char>>, i: int, in_window: bool) -> Option<(int, int, int)>
    decreases lines.len() - i,
{
    if i < 0 || i >= lines.len() {
        None
    } else {
        let line = trim(lines[i]);
        if line.len() > 0 && line[0] == '[' {
            background_from(lines, i + 1, line == "[Colors:Window]"@)
        } else if in_window && starts_with(line, "BackgroundNormal="@) {
            rgb_of(line.skip("BackgroundNormal="@.len() as int))
        } else {
            background_from(lines, i + 1, in_window)
        }
    }
}

/// Reads the window background colour from a kdeglobals text (see
/// [`background_from`]).
pub fn kdeglobals_background(text: &str) -> (r: Option<(i32, i32, i32)>)
    ensures
        match background_from(crate::config::geometry::text_lines(text@), 0, false) {
            Some((a, b, c)) => r == Some((a as i32, b as i32, c as i32)),
            None => r is None,
        },
{
    let lines = crate::config::geometry::lines_of(text);
    let ghost ls = crate::config::geometry::text_lines(text@);
    let mut in_window = false;
    let mut i: usize = 0;
    while i < lines.len()
        invariant
            i <= lines@.len(),
            crate::text::char_views(lines@) == ls,
            ls == crate::config::geometry::text_lines(text@),
            background_from(ls, 0, false) == background_from(ls, i as int, in_window),
        decreases lines@.len() - i,
    {
        assert(lines@[i as int]@ == ls[i as int]);
        let line = trim_chars(lines[i].as_slice());
        if line.len() > 0 && line[0] == '[' {
            let window = to_chars("[Colors:Window]");
            in_window = crate::text::chars_eq(line.as_slice(), window.as_slice());
        } else if in_window && starts_with_chars(line.as_slice(), "BackgroundNormal=") {
            proof {
                reveal_strlit("BackgroundNormal=");
            }
            let value = copy_range(line.as_slice(), 17, line.len());
            assert(value@ =~= line@.skip("BackgroundNormal="@.len() as int));
            let text_value = string_from_chars(value.as_slice());
            assert(trim(ls[i as int]) == line@);
            assert(background_from(ls, i as int, in_window) == rgb_of(text_value@));
            return parse_rgb(text_value.as_str());
        }
        i = i + 1;
    }
    None
}

// ── Stylesheets ────────────────────────────────────────────────────────────

/// `s` without its `/* ... */` comments; an unclosed comment runs to the
/// end.
pub open spec fn without_comments(s: Seq<char>) -> Seq<char>
    decreases s.len(),
{
    match find_sub(s, "/*"@, 0) {
        Some(a) => if 0 <= a && a + 2 <= s.len() {
            s.take(a) + match find_sub(s.skip(a + 2), "*/"@, 0) {
                Some(e) => if 0 <= e && a + 2 + e + 2 <= s.len() {
                    without_comments(s.skip(a + 2 + e + 2))
                } else {
                    Seq::empty()
                },
                None => Seq::empty(),
            }
        } else {
            s
        },
        None => s,
    }
}

/// A stylesheet as Qt takes it: comments removed and whitespace collapsed
/// to single spaces.
pub open spec fn css_text(s: Seq<char>) -> Seq<char> {
    join_with(words(without_comments(s)), " "@)
}

fn remove_comments(v: &[char]) -> (r: Vec<char>)
    ensures
        r@ == without_comments(v@),
{
    proof {
        reveal_strlit("/*");
        reveal_strlit("*/");
    }
    let open = to_chars("/*");
    let close = to_chars("*/");
    let mut out: Vec<char> = Vec::new();
    let mut i: usize = 0;
    assert(v@.skip(0) =~= v@);
    while i < v.len()
        invariant
            i <= v@.len(),
            open@ == "/*"@,
            close@ == "*/"@,
            out@ + without_comments(v@.skip(i as int)) == without_comments(v@),
        decreases v@.len() - i,
    {
        let ghost s = v@.skip(i as int);
        proof {
            reveal_strlit("/*");
            reveal_strlit("*/");
        }
        let rest = copy_range(v, i, v.len());
        assert(rest@ =~= s);
        match find_sub_chars(rest.as_slice(), open.as_slice(), 0) {
            None => {
                push_all(&mut out, rest.as_slice());
                assert(v@.skip(v@.len() as int) =~= Seq::<char>::empty());
                i = v.len();
            },
            Some(a) => {
                proof {
                    lemma_find_sub(s, "/*"@, 0);
                }
                let head = copy_range(rest.as_slice(), 0, a);
                assert(head@ =~= s.take(a as int));
                push_all(&mut out, head.as_slice());
                let after = copy_range(rest.as_slice(), a + 2, rest.len());
                assert(after@ =~= s.skip(a + 2));
                match find_sub_chars(after.as_slice(), close.as_slice(), 0) {
                    None => {
                        assert(v@.skip(v@.len() as int) =~= Seq::<char>::empty());
                        i = v.len();
                    },
                    Some(e) => {
                        proof {
                            lemma_find_sub(s.skip(a + 2), "*/"@, 0);
                        }
                        assert(s.skip(a + 2 + e + 2) =~= v@.skip(i + a + 2 + e + 2));
                        i = i + a + 2 + e + 2;
                    },
                }
            },
        }
    }
    assert(out@ + without_comments(v@.skip(i as int)) =~= out@);
    out
}

/// A stylesheet file's text as Qt takes it (see [`css_text`]).
pub fn strip_css(text: &str) -> (r: String)
    ensures
        r@ == css_text(text@),
{
    let v = to_chars(text);
    let stripped = remove_comments(v.as_slice());
    let w = words_of(stripped.as_slice());
    let mut out = String::new();
    let mut k: usize = 0;
    while k < w.len()
        invariant
            k <= w@.len(),
            crate::text::char_views(w@) == words(without_comments(text@)),
            out@ == join_with(crate::text::char_views(w@).take(k as int), " "@),
        decreases w@.len() - k,
    {
        let ghost prev = out@;
        if k > 0 {
            push_str(&mut out, " ");
        }
        crate::text::push_chars(&mut out, w[k].as_slice());
        proof {
            let t = crate::text::char_views(w@).take(k as int + 1);
            assert(t.drop_last() =~= crate::text::char_views(w@).take(k as int));
            assert(t.last() == w@[k as int]@);
            if k == 0 {
                assert(out@ =~= t[0]);
            } else {
                assert(out@ =~= prev + " "@ + t.last());
            }
        }
        k = k + 1;
    }
    assert(crate::text::char_views(w@).take(w@.len() as int) =~= crate::text::char_views(w@));
    out
}

/// The base stylesheet and a non-empty overlay, separated by one space.
pub open spec fn combined_css(base: Seq<char>, overlay: Option<Seq<char>>) -> Seq<char> {
    match overlay {
        Some(extra) => if extra.len() == 0 {
            base
        } else if base.len() == 0 {
            extra
        } else {
            base + " "@ + extra
        },
        None => base,
    }
}

/// Joins the base stylesheet and the optional inspection overlay.
pub fn join_css(base: &str, overlay: Option<&str>) -> (r: String)
    ensures
        r@ == combined_css(base@, match overlay {
            Some(o) => Some(o@),
            None => None,
        }),
{
    let mut css = crate::text::owned(base);
    if let Some(extra) = overlay {
        if extra.unicode_len() > 0 {
            if base.unicode_len() > 0 {
                push_str(&mut css, " ");
            }
            push_str(&mut css, extra);
        }
    }
    css
}

// ── The tooltip footer ─────────────────────────────────────────────────────

/// The last index at or before `i` where `p` occurs in `s`.
pub open spec fn rfind_from(s: Seq<char>, p: Seq<char>, i: int) -> Option<int>
    decreases i + 1,
{
    if i < 0 {
        None
    } else if occurs_at(s, p, i) {
        Some(i)
    } else {
        rfind_from(s, p, i - 1)
    }
}

/// `html` with `footer` inserted before its last `</div>` (appended when
/// there is none); unchanged for an empty footer.
pub open spec fn with_footer(html: Seq<char>, footer: Seq<char>) -> Seq<char> {
    if footer.len() == 0 {
        html
    } else {
        match rfind_from(html, "</div>"@, html.len() - "</div>"@.len()) {
            Some(i) => html.take(i) + footer + html.skip(i),
            None => html + footer,
        }
    }
}

/// Inserts a footer inside the tooltip's root element (see [`with_footer`]).
pub fn insert_before_tooltip_close(html: String, footer: &str) -> (r: String)
    ensures
        r@ == with_footer(html@, footer@),
{
    if footer.unicode_len() == 0 {
        return html;
    }
    proof {
        reveal_strlit("</div>");
    }
    let v = to_chars(html.as_str());
    let p = to_chars("</div>");
    let n = v.len();
    if n < 6 {
        assert(rfind_from(html@, "</div>"@, html@.len() - 6) is None);
        let mut out = html;
        push_str(&mut out, footer);
        return out;
    }
    let mut i: usize = n - 6;
    loop
        invariant
            i <= n - 6,
            n == v@.len(),
            v@ == html@,
            p@ == "</div>"@,
            rfind_from(html@, "</div>"@, html@.len() - 6) == rfind_from(html@, "</div>"@, i as int),
        decreases i,
    {
        proof {
            reveal_strlit("</div>");
        }
        if occurs_at_chars(v.as_slice(), p.as_slice(), i) {
            let head = copy_range(v.as_slice(), 0, i);
            let tail = copy_range(v.as_slice(), i, n);
            let mut out = string_from_chars(head.as_slice());
            push_str(&mut out, footer);
            crate::text::push_chars(&mut out, tail.as_slice());
            assert(out@ =~= html@.take(i as int) + footer@ + html@.skip(i as int));
            return out;
        }
        if i == 0 {
            assert(rfind_from(html@, "</div>"@, -1) is None);
            let mut out = html;
            push_str(&mut out, footer);
            return out;
        }
        i = i - 1;
    }
}

// ── The page shown ─────────────────────────────────────────────────────────

/// The page to show: the page file's trimmed integer (0 when unreadable or
/// not one), taken modulo the page count (at least one), the count capped at
/// the largest signed 64-bit value.
pub open spec fn page_index_of(text: Option<Seq<char>>, count: nat) -> int {
    let raw = match text {
        Some(t) => match parse_signed(trim(t), i64::MIN as int, i64::MAX as int) {
            Some(v) => v,
            None => 0,
        },
        None => 0,
    };
    let m = if count < 1 {
        1
    } else if count > i64::MAX {
        i64::MAX as int
    } else {
        count as int
    };
    raw % m
}

/// The page to show (see [`page_index_of`]).
pub fn page_index(text: Option<&str>, count: usize) -> (r: usize)
    ensures
        r as int == page_index_of(match text {
            Some(t) => Some(t@),
            None => None,
        }, count as nat),
{
    let raw: i64 = match text {
        Some(t) => {
            let chars = to_chars(t);
            let trimmed = trim_chars(chars.as_slice());
            match parse_i64_chars(trimmed.as_slice()) {
                Some(v) => v,
                None => 0,
            }
        },
        None => 0,
    };
    let m: u64 = if count < 1 {
        1
    } else if count as u64 > 0x7FFF_FFFF_FFFF_FFFFu64 {
        0x7FFF_FFFF_FFFF_FFFFu64
    } else {
        count as u64
    };
    let r = euclid_mod_i64(raw, m);
    assert(r <= count) by {
        assert(r < m);
    }
    r as usize
}

/// `x` modulo `m`, the remainder taken in `0..m`.
fn euclid_mod_i64(x: i64, m: u64) -> (r: u64)
    requires
        0 < m <= 0x7FFF_FFFF_FFFF_FFFF,
    ensures
        r as int == (x as int) % (m as int),
        r < m,
{
    if x >= 0 {
        (x as u64) % m
    } else {
        let y: u64 = (-(x as i128)) as u64;
        let k: u64 = y % m;
        proof {
            let q = (y as int) / (m as int);
            vstd::arithmetic::div_mod::lemma_fundamental_div_mod(y as int, m as int);
            if k == 0 {
                assert(x as int == (-q) * (m as int) + 0) by (nonlinear_arith)
                    requires
                        y as int == (m as int) * q + (k as int),
                        k == 0,
                        x as int == -(y as int),
                ;
                vstd::arithmetic::div_mod::lemma_fundamental_div_mod_converse(x as int, m as int, -q, 0);
            } else {
                assert(x as int == (-q - 1) * (m as int) + ((m - k) as int)) by (nonlinear_arith)
                    requires
                        y as int == (m as int) * q + (k as int),
                        x as int == -(y as int),
                        k < m,
                ;
                vstd::arithmetic::div_mod::lemma_fundamental_div_mod_converse(
                    x as int,
                    m as int,
                    -q - 1,
                    (m - k) as int,
                );
            }
        }
        if k == 0 {
            0
        } else {
            m - k
        }
    }
}

} // verus!
