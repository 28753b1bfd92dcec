//! Tooltip page registry, command-page text processing, and the pager.

use vstd::prelude::*;

pub mod connections;

use crate::render::model::{join_with, nbsp, push_nbsp};
use crate::text::{
    is_space, is_space_char, kept, owned, push_char, push_chars, push_str, split_chars, split_on, str_eq,
    string_from_chars, to_chars, views,
};

verus! {

broadcast use vstd::string::group_string_axioms;

/// The built-in renderer used by a deep-dive page.
#[derive(Debug, Clone, Copy, PartialEq, Eq, Structural)]
pub enum PageRenderKind {
    /// The per-process tooltip page.
    TopProcess,
    /// The per-core CPU tooltip page.
    CpuCores,
    /// The tooltip graphs page.
    Graphs,
}

/// A semantic colorizer applied to command-page text.
#[derive(Debug, Clone, Copy, PartialEq, Eq, Structural)]
pub enum PageColorizer {
    /// Format `ss -4tlnp` output into the tooltip's listening-sockets view.
    Connections,
}

/// What the connections page reads besides the `ss` output: the services
/// table and the command lines of the listening processes.
#[derive(Debug, Clone, PartialEq, Eq, Default)]
pub struct PageEnvironment {
    /// The services table, as `/etc/services` holds it.
    pub services_text: String,
    /// NUL-separated command lines by pid, as `/proc/<pid>/cmdline` holds
    /// them; a pid without an entry has none readable.
    pub cmdlines: Vec<(u32, String)>,
}

/// Static command metadata for a command-backed page.
#[derive(Debug, Clone, Copy, PartialEq, Eq)]
pub struct PageCommandSpec {
    /// Command argv.
    pub argv: &'static [&'static str],
    /// Cache TTL for the rendered command text, in whole seconds (0 = none).
    pub ttl_secs: u64,
    /// Maximum number of visible lines kept from the command output (0 = all).
    pub max_lines: usize,
    /// Whether the command should run under `script -qec` when available.
    pub pty: bool,
    /// Optional semantic colorizer applied to the command output.
    pub colorize: Option<PageColorizer>,
}

/// Where a page's body comes from.
#[derive(Debug, Clone, Copy, PartialEq, Eq)]
pub enum PageSource {
    /// Page 0, the main stats tooltip.
    Full,
    /// A page rendered from command output.
    Command(PageCommandSpec),
    /// A page rendered from already-collected readings.
    Render(PageRenderKind),
}

/// One tooltip page in the active registry.
#[derive(Debug, Clone, Copy, PartialEq, Eq)]
pub struct Page {
    /// Stable page slug.
    pub id: &'static str,
    /// Human-facing label used by the title row.
    pub label: &'static str,
    /// Body source for this page.
    pub source: PageSource,
    /// Default click action while the tooltip is on this page.
    pub click: &'static [&'static str],
}

impl Page {
    /// Returns the command specification when this page is command-backed.
    pub fn command(self) -> (r: Option<PageCommandSpec>)
        ensures
            match self.source {
                PageSource::Command(spec) => r == Some(spec),
                _ => r is None,
            },
    {
        match self.source {
            PageSource::Command(spec) => Some(spec),
            _ => None,
        }
    }

    /// Returns the built-in renderer kind when this page is data-backed.
    pub fn render(self) -> (r: Option<PageRenderKind>)
        ensures
            match self.source {
                PageSource::Render(kind) => r == Some(kind),
                _ => r is None,
            },
    {
        match self.source {
            PageSource::Render(kind) => Some(kind),
            _ => None,
        }
    }
}

/// The texts of a list of string slices.
pub open spec fn strs(v: Seq<&str>) -> Seq<Seq<char>> {
    Seq::new(v.len(), |i: int| v[i]@)
}

/// The click action shared by every page: open the system monitor.
pub open spec fn monitor_click(click: Seq<&str>) -> bool {
    strs(click) == seq!["plasma-systemmonitor"@]
}

/// `p` is a command page with the given label and command metadata.
pub open spec fn command_page(
    p: Page,
    label: Seq<char>,
    argv: Seq<Seq<char>>,
    ttl_secs: nat,
    max_lines: nat,
    pty: bool,
    colorize: Option<PageColorizer>,
) -> bool {
    &&& p.label@ == label
    &&& monitor_click(p.click@)
    &&& match p.source {
        PageSource::Command(c) => {
            &&& strs(c.argv@) == argv
            &&& c.ttl_secs == ttl_secs
            &&& c.max_lines == max_lines
            &&& c.pty == pty
            &&& c.colorize == colorize
        },
        _ => false,
    }
}

/// `p` is a page rendered by `kind`, with the given label.
pub open spec fn render_page(p: Page, label: Seq<char>, kind: PageRenderKind) -> bool {
    &&& p.label@ == label
    &&& monitor_click(p.click@)
    &&& p.source == PageSource::Render(kind)
}

/// `p` is page 0, the main stats tooltip.
pub open spec fn is_full_page(p: Page) -> bool {
    &&& p.id@ == "full"@
    &&& p.label@ == "Full stats"@
    &&& p.source is Full
    &&& monitor_click(p.click@)
}

/// The fastfetch invocation of the system-info page.
pub open spec fn fastfetch_argv() -> Seq<Seq<char>> {
    seq![
        "fastfetch"@,
        "--logo"@,
        "none"@,
        "--structure"@,
        "OS:Kernel:Loadavg:Uptime:Separator:Chassis:Board:Bios:CPU:GPU:Display:BluetoothRadio:Separator:Memory:Disk:Battery:PowerAdapter:Wifi:LocalIP:DNS:Separator:InitSystem:Shell:LM:DE:WM"@,
    ]
}

/// The ids of the deep-dive pages, in registry order.
pub open spec fn registry_ids() -> Seq<Seq<char>> {
    seq!["processes"@, "connections"@, "fastfetch"@, "cpu_cores"@, "graphs"@]
}

/// `p` is the registry's page for its id.
pub open spec fn registered(p: Page) -> bool {
    if p.id@ == "processes"@ {
        render_page(p, "Top processes"@, PageRenderKind::TopProcess)
    } else if p.id@ == "connections"@ {
        command_page(p, "Connections"@, seq!["ss"@, "-4tlnp"@], 0, 20, false, Some(PageColorizer::Connections))
    } else if p.id@ == "fastfetch"@ {
        command_page(p, "System info"@, fastfetch_argv(), 30, 0, true, None)
    } else if p.id@ == "cpu_cores"@ {
        render_page(p, "CPU cores"@, PageRenderKind::CpuCores)
    } else if p.id@ == "graphs"@ {
        render_page(p, "Graphs"@, PageRenderKind::Graphs)
    } else {
        false
    }
}

proof fn lemma_registry_ids_distinct()
    ensures
        "processes"@ != "connections"@,
        "processes"@ != "fastfetch"@,
        "processes"@ != "cpu_cores"@,
        "processes"@ != "graphs"@,
        "connections"@ != "fastfetch"@,
        "connections"@ != "cpu_cores"@,
        "connections"@ != "graphs"@,
        "fastfetch"@ != "cpu_cores"@,
        "fastfetch"@ != "graphs"@,
        "cpu_cores"@ != "graphs"@,
        "full"@ != "processes"@,
{
    reveal_strlit("processes");
    reveal_strlit("connections");
    reveal_strlit("fastfetch");
    reveal_strlit("cpu_cores");
    reveal_strlit("graphs");
    reveal_strlit("full");
    assert("processes"@[0] != "connections"@[0]);
    assert("processes"@[0] != "fastfetch"@[0]);
    assert("processes"@[0] != "cpu_cores"@[0]);
    assert("processes"@[0] != "graphs"@[0]);
    assert("connections"@[0] != "fastfetch"@[0]);
    assert("connections"@[1] != "cpu_cores"@[1]);
    assert("connections"@[0] != "graphs"@[0]);
    assert("fastfetch"@[0] != "cpu_cores"@[0]);
    assert("fastfetch"@[0] != "graphs"@[0]);
    assert("cpu_cores"@[0] != "graphs"@[0]);
    assert("full"@[0] != "processes"@[0]);
}

fn monitor() -> (r: &'static [&'static str])
    ensures
        monitor_click(r@),
{
    let r: &'static [&'static str] = &["plasma-systemmonitor"];
    assert(strs(r@) =~= seq!["plasma-systemmonitor"@]);
    r
}

/// Page 0: the main stats tooltip.
pub fn full_page() -> (p: Page)
    ensures
        is_full_page(p),
{
    Page { id: "full", label: "Full stats", source: PageSource::Full, click: monitor() }
}

fn processes_page() -> (p: Page)
    ensures
        p.id@ == "processes"@,
        registered(p),
{
    Page {
        id: "processes",
        label: "Top processes",
        source: PageSource::Render(PageRenderKind::TopProcess),
        click: monitor(),
    }
}

fn connections_page() -> (p: Page)
    ensures
        p.id@ == "connections"@,
        registered(p),
{
    proof {
        lemma_registry_ids_distinct();
    }
    let argv: &'static [&'static str] = &["ss", "-4tlnp"];
    assert(strs(argv@) =~= seq!["ss"@, "-4tlnp"@]);
    Page {
        id: "connections",
        label: "Connections",
        source: PageSource::Command(
            PageCommandSpec {
                argv,
                ttl_secs: 0,
                max_lines: 20,
                pty: false,
                colorize: Some(PageColorizer::Connections),
            },
        ),
        click: monitor(),
    }
}

fn fastfetch_page() -> (p: Page)
    ensures
        p.id@ == "fastfetch"@,
        registered(p),
{
    proof {
        lemma_registry_ids_distinct();
    }
    let argv: &'static [&'static str] = &[
        "fastfetch",
        "--logo",
        "none",
        "--structure",
        "OS:Kernel:Loadavg:Uptime:Separator:Chassis:Board:Bios:CPU:GPU:Display:BluetoothRadio:Separator:Memory:Disk:Battery:PowerAdapter:Wifi:LocalIP:DNS:Separator:InitSystem:Shell:LM:DE:WM",
    ];
    assert(strs(argv@) =~= fastfetch_argv());
    Page {
        id: "fastfetch",
        label: "System info",
        source: PageSource::Command(
            PageCommandSpec { argv, ttl_secs: 30, max_lines: 0, pty: true, colorize: None },
        ),
        click: monitor(),
    }
}

fn cpu_cores_page() -> (p: Page)
    ensures
        p.id@ == "cpu_cores"@,
        registered(p),
{
    proof {
        lemma_registry_ids_distinct();
    }
    Page {
        id: "cpu_cores",
        label: "CPU cores",
        source: PageSource::Render(PageRenderKind::CpuCores),
        click: monitor(),
    }
}

fn graphs_page() -> (p: Page)
    ensures
        p.id@ == "graphs"@,
        registered(p),
{
    proof {
        lemma_registry_ids_distinct();
    }
    Page {
        id: "graphs",
        label: "Graphs",
        source: PageSource::Render(PageRenderKind::Graphs),
        click: monitor(),
    }
}

/// The deep-dive pages, in registry order.
fn registry() -> (r: Vec<Page>)
    ensures
        r@.len() == registry_ids().len(),
        forall|k: int| 0 <= k < r@.len() ==> (#[trigger] r@[k]).id@ == registry_ids()[k] && registered(r@[k]),
{
    let r = vec![processes_page(), connections_page(), fastfetch_page(), cpu_cores_page(), graphs_page()];
    r
}

/// The registry page whose id is `id`, if any.
fn find_page(id: &str) -> (r: Option<Page>)
    ensures
        match r {
            Some(p) => p.id@ == id@ && registered(p) && registry_ids().contains(id@),
            None => !registry_ids().contains(id@),
        },
{
    let pages = registry();
    let mut k: usize = 0;
    while k < pages.len()
        invariant
            k <= pages@.len(),
            pages@.len() == registry_ids().len(),
            forall|m: int| 0 <= m < pages@.len() ==> (#[trigger] pages@[m]).id@ == registry_ids()[m] && registered(pages@[m]),
            forall|m: int| 0 <= m < k ==> registry_ids()[m] != id@,
        decreases pages@.len() - k,
    {
        if str_eq(pages[k].id, id) {
            assert(registry_ids()[k as int] == id@);
            return Some(pages[k]);
        }
        k = k + 1;
    }
    proof {
        if registry_ids().contains(id@) {
            let m = choose|m: int| 0 <= m < registry_ids().len() && registry_ids()[m] == id@;
            assert(registry_ids()[m] != id@);
        }
    }
    None
}

/// The ids of a page list.
pub open spec fn page_ids(pages: Seq<Page>) -> Seq<Seq<char>> {
    Seq::new(pages.len(), |i: int| pages[i].id@)
}

/// Returns the active page list: page 0, then the configured deep-dive pages
/// in the configured order, skipping ids the registry does not know and
/// keeping repeats.
pub fn build_pages(page_ids_in: &[String]) -> (r: Vec<Page>)
    ensures
        r@.len() >= 1,
        is_full_page(r@[0]),
        forall|i: int| 1 <= i < r@.len() ==> registered(#[trigger] r@[i]),
        page_ids(r@.drop_first()) == kept(views(page_ids_in@), |x: Seq<char>| registry_ids().contains(x)),
{
    let ghost keep = |x: Seq<char>| registry_ids().contains(x);
    let mut pages: Vec<Page> = Vec::new();
    pages.push(full_page());
    let mut i: usize = 0;
    while i < page_ids_in.len()
        invariant
            i <= page_ids_in@.len(),
            keep == (|x: Seq<char>| registry_ids().contains(x)),
            pages@.len() >= 1,
            is_full_page(pages@[0]),
            forall|j: int| 1 <= j < pages@.len() ==> registered(#[trigger] pages@[j]),
            page_ids(pages@.drop_first()) == kept(views(page_ids_in@).take(i as int), keep),
        decreases page_ids_in@.len() - i,
    {
        let ghost before = pages@;
        proof {
            let t = views(page_ids_in@).take(i as int + 1);
            assert(t.drop_last() =~= views(page_ids_in@).take(i as int));
            assert(t.last() == page_ids_in@[i as int]@);
        }
        match find_page(page_ids_in[i].as_str()) {
            Some(p) => {
                pages.push(p);
                assert(page_ids(pages@.drop_first()) =~= page_ids(before.drop_first()).push(p.id@));
            },
            None => {},
        }
        i = i + 1;
    }
    assert(views(page_ids_in@).take(page_ids_in@.len() as int) =~= views(page_ids_in@));
    pages
}

/// Returns the current default click action.
pub fn default_click() -> (r: &'static [&'static str])
    ensures
        monitor_click(r@),
{
    monitor()
}

/// Returns the fixed number of rows shown on the top-processes page.
pub fn top_process_page_rows() -> (r: usize)
    ensures
        r == 15,
{
    15
}

// ── HTML escaping ──────────────────────────────────────────────────────────

/// The HTML escape of one character.
pub open spec fn escape_char(c: char) -> Seq<char> {
    if c == '&' {
        "&amp;"@
    } else if c == '<' {
        "&lt;"@
    } else if c == '>' {
        "&gt;"@
    } else if c == '"' {
        "&quot;"@
    } else if c == '\'' {
        "&#x27;"@
    } else {
        seq![c]
    }
}

/// `s` with every character HTML-escaped.
pub open spec fn escaped(s: Seq<char>) -> Seq<char>
    decreases s.len(),
{
    if s.len() == 0 {
        Seq::empty()
    } else {
        escaped(s.drop_last()) + escape_char(s.last())
    }
}

/// The escape of one character with its space made non-breaking.
pub open spec fn spaced_char(c: char) -> Seq<char> {
    if c == ' ' {
        "&nbsp;"@
    } else {
        escape_char(c)
    }
}

/// `s` HTML-escaped, every space made `&nbsp;`.
pub open spec fn escaped_spaces(s: Seq<char>) -> Seq<char>
    decreases s.len(),
{
    if s.len() == 0 {
        Seq::empty()
    } else {
        escaped_spaces(s.drop_last()) + spaced_char(s.last())
    }
}

fn push_escaped_char(out: &mut String, c: char, spaces: bool)
    ensures
        final(out)@ == old(out)@ + (if spaces {
            spaced_char(c)
        } else {
            escape_char(c)
        }),
{
    if spaces && c == ' ' {
        push_str(out, "&nbsp;");
    } else if c == '&' {
        push_str(out, "&amp;");
    } else if c == '<' {
        push_str(out, "&lt;");
    } else if c == '>' {
        push_str(out, "&gt;");
    } else if c == '"' {
        push_str(out, "&quot;");
    } else if c == '\'' {
        push_str(out, "&#x27;");
    } else {
        push_char(out, c);
        assert(out@ =~= old(out)@ + seq![c]);
    }
}

fn escape_chars(v: &[char], spaces: bool) -> (r: String)
    ensures
        r@ == (if spaces {
            escaped_spaces(v@)
        } else {
            escaped(v@)
        }),
{
    let mut out = String::new();
    let mut k: usize = 0;
    while k < v.len()
        invariant
            k <= v@.len(),
            out@ == (if spaces {
                escaped_spaces(v@.take(k as int))
            } else {
                escaped(v@.take(k as int))
            }),
        decreases v@.len() - k,
    {
        proof {
            let t = v@.take(k as int + 1);
            assert(t.drop_last() =~= v@.take(k as int));
            assert(t.last() == v@[k as int]);
        }
        push_escaped_char(&mut out, v[k], spaces);
        k = k + 1;
    }
    assert(v@.take(v@.len() as int) =~= v@);
    out
}

/// Escapes `&`, `<`, `>`, `"` and `'` for HTML.
pub fn escape_html(text: &str) -> (r: String)
    ensures
        r@ == escaped(text@),
{
    let v = to_chars(text);
    escape_chars(v.as_slice(), false)
}

/// Escapes for HTML and makes every space non-breaking.
pub fn escape_spaces(text: &str) -> (r: String)
    ensures
        r@ == escaped_spaces(text@),
{
    let v = to_chars(text);
    escape_chars(v.as_slice(), true)
}

// ── Monospace text pages ───────────────────────────────────────────────────

/// One line of a text page: escaped with non-breaking spaces, and an empty
/// line kept visible as one `&nbsp;`.
pub open spec fn mono_line(line: Seq<char>) -> Seq<char> {
    if line.len() == 0 {
        "&nbsp;"@
    } else {
        escaped_spaces(line)
    }
}

/// [`mono_line`] of each line.
pub open spec fn mono_lines(lines: Seq<Seq<char>>) -> Seq<Seq<char>> {
    Seq::new(lines.len(), |i: int| mono_line(lines[i]))
}

/// A text page as Qt RichText: its `\n`-separated lines, each through
/// [`mono_line`], joined by `<br>`.
pub open spec fn mono_html(text: Seq<char>) -> Seq<char> {
    join_with(mono_lines(split_on(text, '\n')), "<br>"@)
}

/// Escapes command output for Qt RichText monospace display.
pub fn text_to_mono_html(text: &str) -> (r: String)
    ensures
        r@ == mono_html(text@),
{
    let chars = to_chars(text);
    let lines = split_chars(chars.as_slice(), '\n');
    let ghost pieces = split_on(text@, '\n');
    let mut out = String::new();
    let mut i: usize = 0;
    while i < lines.len()
        invariant
            i <= lines@.len(),
            pieces == split_on(text@, '\n'),
            pieces.len() == lines@.len(),
            forall|k: int| 0 <= k < lines@.len() ==> (#[trigger] lines@[k])@ == pieces[k],
            out@ == join_with(mono_lines(pieces.take(i as int)), "<br>"@),
        decreases lines@.len() - i,
    {
        let ghost prev = out@;
        let line = &lines[i];
        assert(line@ == pieces[i as int]);
        if i > 0 {
            push_str(&mut out, "<br>");
        }
        if line.len() == 0 {
            push_str(&mut out, "&nbsp;");
        } else {
            let part = escape_chars(line.as_slice(), true);
            push_str(&mut out, part.as_str());
        }
        proof {
            let m = mono_lines(pieces.take(i as int + 1));
            assert(m.drop_last() =~= mono_lines(pieces.take(i as int)));
            assert(m.last() == mono_line(pieces[i as int]));
            if i == 0 {
                assert(out@ =~= m[0]);
            } else {
                assert(out@ =~= prev + "<br>"@ + m.last());
            }
        }
        i = i + 1;
    }
    proof {
        assert(pieces.take(pieces.len() as int) =~= pieces);
    }
    out
}

// ── Titles and pager ───────────────────────────────────────────────────────

/// ASCII upper case of one character.
pub open spec fn ascii_upper(c: char) -> char {
    if 'a' <= c && c <= 'z' {
        ((c as int) - 32) as char
    } else {
        c
    }
}

/// ASCII upper case of a text.
pub open spec fn ascii_uppercase(s: Seq<char>) -> Seq<char> {
    Seq::new(s.len(), |i: int| ascii_upper(s[i]))
}

fn upper_char(c: char) -> (r: char)
    ensures
        r == ascii_upper(c),
{
    if 'a' <= c && c <= 'z' {
        let b: u8 = c as u8;
        let u: u8 = b - 32;
        let r: char = u as char;
        r
    } else {
        c
    }
}

/// The title row of a deep-dive page.
pub open spec fn title_of(label: Seq<char>) -> Seq<char> {
    "<div><span class=\"title\">"@ + escaped(ascii_uppercase(label))
        + "</span></div><div width=\"100%\" class=\"title-rule\">&nbsp;</div>"@
}

/// Returns the tooltip title HTML for one deep-dive page.
pub fn title_html(page: &Page) -> (r: String)
    ensures
        r@ == title_of(page.label@),
{
    let chars = to_chars(page.label);
    let mut upper: Vec<char> = Vec::new();
    let mut k: usize = 0;
    while k < chars.len()
        invariant
            k <= chars@.len(),
            chars@ == page.label@,
            upper@ == ascii_uppercase(chars@.take(k as int)),
        decreases chars@.len() - k,
    {
        let c = upper_char(chars[k]);
        upper.push(c);
        k = k + 1;
        assert(upper@ =~= ascii_uppercase(chars@.take(k as int)));
    }
    assert(chars@.take(chars@.len() as int) =~= chars@);
    let label = escape_chars(upper.as_slice(), false);
    let mut out = String::new();
    push_str(&mut out, "<div><span class=\"title\">");
    push_str(&mut out, label.as_str());
    push_str(&mut out, "</span></div><div width=\"100%\" class=\"title-rule\">&nbsp;</div>");
    out
}

/// One pager dot: lit for the current page.
pub open spec fn pager_dot(k: int, idx: int) -> Seq<char> {
    if k == idx {
        "<span class=\"on\">●</span>"@
    } else {
        "<span class=\"off\">●</span>"@
    }
}

/// The pager's dots, one per page, separated by `&nbsp;`.
pub open spec fn pager_dots(idx: int, total: nat) -> Seq<char> {
    join_with(Seq::new(total, |k: int| pager_dot(k, idx)), "&nbsp;"@)
}

/// Visible width of `total` dots and their separators, saturating at the
/// machine word as the computation does.
pub open spec fn pager_visible(total: nat) -> int {
    if 2 * total > usize::MAX {
        usize::MAX - 1
    } else {
        2 * total - 1
    }
}

/// Left padding that centers the dots under a body `width` wide.
pub open spec fn pager_pad(width: nat, total: nat) -> nat {
    if width > pager_visible(total) {
        ((width - pager_visible(total)) / 2) as nat
    } else {
        0
    }
}

/// The pager row: nothing for a single page, else the centered dots.
pub open spec fn pager(idx: nat, width: nat, total: nat) -> Seq<char> {
    if total <= 1 {
        Seq::empty()
    } else {
        "<div class=\"pager\">"@ + nbsp(pager_pad(width, total)) + pager_dots(idx as int, total) + "</div>"@
    }
}

/// Returns the centered pager row for a page body width.
pub fn pager_html(idx: usize, width: usize, total: usize) -> (r: String)
    ensures
        r@ == pager(idx as nat, width as nat, total as nat),
{
    if total <= 1 {
        return String::new();
    }
    let mut dots = String::new();
    let mut k: usize = 0;
    while k < total
        invariant
            k <= total,
            dots@ == join_with(Seq::new(k as nat, |m: int| pager_dot(m, idx as int)), "&nbsp;"@),
        decreases total - k,
    {
        let ghost prev = dots@;
        if k > 0 {
            push_str(&mut dots, "&nbsp;");
        }
        if k == idx {
            push_str(&mut dots, "<span class=\"on\">●</span>");
        } else {
            push_str(&mut dots, "<span class=\"off\">●</span>");
        }
        proof {
            let m = Seq::new(k as nat + 1, |j: int| pager_dot(j, idx as int));
            assert(m.drop_last() =~= Seq::new(k as nat, |j: int| pager_dot(j, idx as int)));
            if k == 0 {
                assert(dots@ =~= m[0]);
            } else {
                assert(dots@ =~= prev + "&nbsp;"@ + m.last());
            }
        }
        k = k + 1;
    }
    let visible: usize = if total > usize::MAX / 2 {
        usize::MAX - 1
    } else {
        total * 2 - 1
    };
    let pad: usize = width.saturating_sub(visible) / 2;
    let mut out = String::new();
    push_str(&mut out, "<div class=\"pager\">");
    push_nbsp(&mut out, pad);
    push_str(&mut out, dots.as_str());
    push_str(&mut out, "</div>");
    out
}


// ── Terminal escape sequences ──────────────────────────────────────────────

/// Whether `c` ends a CSI escape sequence (`@` through `~`).
pub open spec fn csi_final_char(c: char) -> bool {
    '@' <= c && c <= '~'
}

/// Index of the first CSI final character of `s` at or after `from`.
pub open spec fn csi_final(s: Seq<char>, from: int) -> Option<int>
    decreases s.len() - from,
{
    if from < 0 || from >= s.len() {
        None
    } else if csi_final_char(s[from]) {
        Some(from)
    } else {
        csi_final(s, from + 1)
    }
}

/// Length of the SGR sequence (`ESC [ ... m`) at the start of `s`, if one
/// starts there.
pub open spec fn sgr_at(s: Seq<char>) -> Option<int> {
    if s.len() >= 2 && s[0] == '\x1b' && s[1] == '[' {
        match csi_final(s, 2) {
            Some(k) => if s[k] == 'm' && k < s.len() {
                Some(k + 1)
            } else {
                None
            },
            None => None,
        }
    } else {
        None
    }
}

/// `s` without its SGR (colour) sequences; other escapes are kept.
pub open spec fn strip_sgr(s: Seq<char>) -> Seq<char>
    decreases s.len(),
{
    if s.len() == 0 {
        s
    } else {
        match sgr_at(s) {
            Some(e) => if 0 < e <= s.len() {
                strip_sgr(s.skip(e))
            } else {
                seq![s[0]] + strip_sgr(s.drop_first())
            },
            None => seq![s[0]] + strip_sgr(s.drop_first()),
        }
    }
}

/// Scans the CSI sequence that starts at `start` (an `ESC [`): returns the
/// index after its final character and whether that character is `m`, or
/// the end of `v` and `false` when no final character follows.
fn skip_csi(v: &[char], start: usize) -> (r: (usize, bool))
    requires
        start + 2 <= v@.len(),
    ensures
        start + 2 <= r.0 <= v@.len(),
        match csi_final(v@.skip(start as int), 2) {
            Some(k) => r.0 == start + k + 1 && r.1 == (v@[start + k] == 'm') && start + k < v@.len(),
            None => r.0 == v@.len() && !r.1,
        },
{
    let n: usize = v.len();
    let ghost s = v@.skip(start as int);
    let mut j: usize = start + 2;
    while j < n
        invariant
            n == v@.len(),
            start + 2 <= j <= v@.len(),
            s == v@.skip(start as int),
            csi_final(s, 2) == csi_final(s, j - start),
        decreases v@.len() - j,
    {
        assert(s[j - start] == v@[j as int]);
        let c = v[j];
        if '@' <= c && c <= '~' {
            return (j + 1, c == 'm');
        }
        j = j + 1;
    }
    (n, false)
}

/// Removes SGR sequences from a line of characters.
fn strip_sgr_chars(v: &[char]) -> (r: Vec<char>)
    ensures
        r@ == strip_sgr(v@),
{
    let mut out: Vec<char> = Vec::new();
    let mut i: usize = 0;
    assert(v@.skip(0) =~= v@);
    while i < v.len()
        invariant
            i <= v@.len(),
            out@ + strip_sgr(v@.skip(i as int)) == strip_sgr(v@),
        decreases v@.len() - i,
    {
        let ghost s = v@.skip(i as int);
        assert(s[0] == v@[i as int]);
        if v[i] == '\x1b' && i + 1 < v.len() && v[i + 1] == '[' {
            assert(s[1] == v@[i + 1]);
            let (next, keep) = skip_csi(v, i);
            if keep {
                proof {
                    match csi_final(s, 2) {
                        Some(k) => {
                            assert(next == i + k + 1);
                            assert(s.skip(k + 1) =~= v@.skip(next as int));
                        },
                        None => {},
                    }
                }
                i = next;
                continue;
            }
        }
        out.push(v[i]);
        assert(s.drop_first() =~= v@.skip(i + 1));
        i = i + 1;
    }
    assert(out@ + strip_sgr(v@.skip(i as int)) =~= out@);
    out
}

/// The widest line, counted after removing SGR sequences.
pub open spec fn widest(lines: Seq<Seq<char>>) -> nat
    decreases lines.len(),
{
    if lines.len() == 0 {
        0
    } else {
        let w = strip_sgr(lines.last()).len();
        let rest = widest(lines.drop_last());
        if w > rest {
            w
        } else {
            rest
        }
    }
}

/// Returns the visible width, in monospace characters, of a text page: its
/// widest line once colour sequences are removed.
pub fn text_width(text: &str) -> (r: usize)
    ensures
        r == widest(split_on(text@, '\n')),
{
    let chars = to_chars(text);
    let lines = split_chars(chars.as_slice(), '\n');
    let ghost pieces = split_on(text@, '\n');
    let mut best: usize = 0;
    let mut i: usize = 0;
    while i < lines.len()
        invariant
            i <= lines@.len(),
            pieces == split_on(text@, '\n'),
            pieces.len() == lines@.len(),
            forall|k: int| 0 <= k < lines@.len() ==> (#[trigger] lines@[k])@ == pieces[k],
            best == widest(pieces.take(i as int)),
        decreases lines@.len() - i,
    {
        let visible = strip_sgr_chars(lines[i].as_slice());
        proof {
            let t = pieces.take(i as int + 1);
            assert(t.drop_last() =~= pieces.take(i as int));
            assert(t.last() == lines@[i as int]@);
        }
        if visible.len() > best {
            best = visible.len();
        }
        i = i + 1;
    }
    assert(pieces.take(pieces.len() as int) =~= pieces);
    best
}

/// Index just past the end of the OSC sequence whose payload starts at
/// `from`: after its BEL or `ESC \` terminator, or the end of `s`.
pub open spec fn osc_end(s: Seq<char>, from: int) -> int
    decreases s.len() - from,
{
    if from < 0 || from >= s.len() {
        s.len() as int
    } else if s[from] == '\x07' {
        from + 1
    } else if s[from] == '\x1b' && from + 1 < s.len() && s[from + 1] == '\\' {
        from + 2
    } else {
        osc_end(s, from + 1)
    }
}

/// Two-character escapes that carry no payload and are dropped.
pub open spec fn short_escape(c: char) -> bool {
    c == '=' || c == '>' || c == 'N' || c == 'O' || c == 'P' || c == 'X' || c == '^' || c == '_'
        || c == 'c'
}

/// Terminal output reduced to what a text page shows: carriage returns,
/// OSC sequences, short escapes and non-SGR CSI sequences are removed; SGR
/// (colour) sequences and all other characters are kept.
pub open spec fn without_noise(s: Seq<char>) -> Seq<char>
    decreases s.len(),
{
    if s.len() == 0 {
        s
    } else if s[0] == '\r' {
        without_noise(s.drop_first())
    } else if s[0] == '\x1b' && s.len() >= 2 && s[1] == ']' {
        let e = osc_end(s, 2);
        if 0 < e <= s.len() {
            without_noise(s.skip(e))
        } else {
            Seq::empty()
        }
    } else if s[0] == '\x1b' && s.len() >= 2 && s[1] == '[' {
        match csi_final(s, 2) {
            Some(k) => if 0 <= k < s.len() {
                (if s[k] == 'm' {
                    s.take(k + 1)
                } else {
                    Seq::empty()
                }) + without_noise(s.skip(k + 1))
            } else {
                Seq::empty()
            },
            None => Seq::empty(),
        }
    } else if s[0] == '\x1b' && s.len() >= 2 && short_escape(s[1]) {
        without_noise(s.skip(2))
    } else {
        seq![s[0]] + without_noise(s.drop_first())
    }
}

/// Scans an OSC payload that starts at `from`.
fn skip_osc(v: &[char], from: usize) -> (r: usize)
    requires
        2 <= from <= v@.len(),
    ensures
        r == osc_end(v@.skip(from - 2), 2) + from - 2,
        from <= r <= v@.len(),
{
    let ghost s = v@.skip(from - 2);
    let mut j: usize = from;
    while j < v.len()
        invariant
            2 <= from <= j <= v@.len(),
            s == v@.skip(from - 2),
            osc_end(s, 2) == osc_end(s, j - from + 2),
        decreases v@.len() - j,
    {
        assert(s[j - from + 2] == v@[j as int]);
        if v[j] == '\x07' {
            return j + 1;
        }
        if v[j] == '\x1b' && j + 1 < v.len() && v[j + 1] == '\\' {
            assert(s[j - from + 3] == v@[j + 1]);
            return j + 2;
        }
        j = j + 1;
    }
    v.len()
}

/// Removes terminal noise from command output (see [`without_noise`]).
pub fn strip_terminal_noise(text: &str) -> (r: String)
    ensures
        r@ == without_noise(text@),
{
    let v = to_chars(text);
    let mut out: Vec<char> = Vec::new();
    let mut i: usize = 0;
    assert(v@.skip(0) =~= v@);
    while i < v.len()
        invariant
            i <= v@.len(),
            v@ == text@,
            out@ + without_noise(v@.skip(i as int)) == without_noise(v@),
        decreases v@.len() - i,
    {
        let ghost s = v@.skip(i as int);
        assert(s[0] == v@[i as int]);
        let c = v[i];
        if c == '\r' {
            assert(s.drop_first() =~= v@.skip(i + 1));
            i = i + 1;
        } else if c == '\x1b' && i + 1 < v.len() {
            let next = v[i + 1];
            assert(s[1] == v@[i + 1]);
            if next == ']' {
                let e = skip_osc(v.as_slice(), i + 2);
                assert(s.skip(e - i) =~= v@.skip(e as int));
                i = e;
            } else if next == '[' {
                let (e, keep) = skip_csi(v.as_slice(), i);
                let ghost base = out@;
                if keep {
                    let mut j: usize = i;
                    while j < e
                        invariant
                            i <= j <= e <= v@.len(),
                            out@ == base + v@.subrange(i as int, j as int),
                        decreases e - j,
                    {
                        out.push(v[j]);
                        j = j + 1;
                        assert(out@ =~= base + v@.subrange(i as int, j as int));
                    }
                }
                proof {
                    match csi_final(s, 2) {
                        Some(k) => {
                            assert(e == i + k + 1);
                            assert(s.skip(k + 1) =~= v@.skip(e as int));
                            if keep {
                                assert(s.take(k + 1) =~= v@.subrange(i as int, e as int));
                                assert(out@ == base + s.take(k + 1));
                            } else {
                                assert(out@ == base);
                            }
                        },
                        None => {
                            assert(v@.skip(e as int) =~= Seq::<char>::empty());
                        },
                    }
                }
                i = e;
            } else if next == '=' || next == '>' || next == 'N' || next == 'O' || next == 'P' || next
                == 'X' || next == '^' || next == '_' || next == 'c' {
                assert(s.skip(2) =~= v@.skip(i + 2));
                i = i + 2;
            } else {
                out.push(c);
                assert(s.drop_first() =~= v@.skip(i + 1));
                i = i + 1;
            }
        } else {
            out.push(c);
            assert(s.drop_first() =~= v@.skip(i + 1));
            i = i + 1;
        }
    }
    assert(out@ + without_noise(v@.skip(i as int)) =~= out@);
    string_from_chars(out.as_slice())
}


// ── Shell quoting and ellipsis ─────────────────────────────────────────────

/// Characters that need no shell quoting.
pub open spec fn shell_safe(c: char) -> bool {
    ('a' <= c && c <= 'z') || ('A' <= c && c <= 'Z') || ('0' <= c && c <= '9') || c == '_' || c
        == '-' || c == '.' || c == '/' || c == ':'
}

/// `arg` with each `'` written as `'"'"'`.
pub open spec fn quote_inner(arg: Seq<char>) -> Seq<char>
    decreases arg.len(),
{
    if arg.len() == 0 {
        arg
    } else {
        quote_inner(arg.drop_last()) + (if arg.last() == '\'' {
            "'\"'\"'"@
        } else {
            seq![arg.last()]
        })
    }
}

/// One argument as the shell reads it back: as is when every character is
/// safe, else single-quoted.
pub open spec fn shell_word(arg: Seq<char>) -> Seq<char> {
    if forall|i: int| 0 <= i < arg.len() ==> shell_safe(#[trigger] arg[i]) {
        arg
    } else {
        "'"@ + quote_inner(arg) + "'"@
    }
}

/// Each argument through [`shell_word`], joined with spaces.
pub open spec fn shell_line(args: Seq<Seq<char>>) -> Seq<char> {
    join_with(Seq::new(args.len(), |i: int| shell_word(args[i])), " "@)
}

/// Quotes each argument of `argv` for `sh -c` and joins them with spaces.
pub fn shell_join(argv: &[&str]) -> (r: String)
    ensures
        r@ == shell_line(strs(argv@)),
{
    let mut out = String::new();
    let mut a: usize = 0;
    while a < argv.len()
        invariant
            a <= argv@.len(),
            out@ == join_with(Seq::new(a as nat, |i: int| shell_word(argv@[i]@)), " "@),
        decreases argv@.len() - a,
    {
        let ghost prev = out@;
        let chars = to_chars(argv[a]);
        let mut safe = true;
        let mut k: usize = 0;
        while k < chars.len()
            invariant
                k <= chars@.len(),
                safe == (forall|m: int| 0 <= m < k ==> shell_safe(#[trigger] chars@[m])),
            decreases chars@.len() - k,
        {
            let c = chars[k];
            let ok = ('a' <= c && c <= 'z') || ('A' <= c && c <= 'Z') || ('0' <= c && c <= '9')
                || c == '_' || c == '-' || c == '.' || c == '/' || c == ':';
            if !ok {
                safe = false;
            }
            k = k + 1;
        }
        let mut word = String::new();
        if safe {
            push_chars(&mut word, chars.as_slice());
        } else {
            push_str(&mut word, "'");
            let ghost head = word@;
            let mut m: usize = 0;
            while m < chars.len()
                invariant
                    m <= chars@.len(),
                    word@ == head + quote_inner(chars@.take(m as int)),
                decreases chars@.len() - m,
            {
                proof {
                    let t = chars@.take(m as int + 1);
                    assert(t.drop_last() =~= chars@.take(m as int));
                    assert(t.last() == chars@[m as int]);
                }
                if chars[m] == '\'' {
                    push_str(&mut word, "'\"'\"'");
                } else {
                    push_char(&mut word, chars[m]);
                }
                m = m + 1;
                assert(word@ =~= head + quote_inner(chars@.take(m as int)));
            }
            assert(chars@.take(chars@.len() as int) =~= chars@);
            push_str(&mut word, "'");
        }
        assert(word@ == shell_word(argv@[a as int]@));
        if a > 0 {
            push_str(&mut out, " ");
        }
        push_str(&mut out, word.as_str());
        proof {
            let w = Seq::new(a as nat + 1, |i: int| shell_word(argv@[i]@));
            assert(w.drop_last() =~= Seq::new(a as nat, |i: int| shell_word(argv@[i]@)));
            if a == 0 {
                assert(out@ =~= w[0]);
            } else {
                assert(out@ =~= prev + " "@ + w.last());
            }
        }
        a = a + 1;
    }
    assert(Seq::new(argv@.len(), |i: int| shell_word(argv@[i]@)) =~= Seq::new(
        strs(argv@).len(),
        |i: int| shell_word(strs(argv@)[i]),
    ));
    out
}

/// `s` cut to `max` characters, the last shown one replaced by `…`; at
/// least one character is always kept.
pub open spec fn ellipsized(s: Seq<char>, max: nat) -> Seq<char> {
    if s.len() <= max {
        s
    } else {
        s.take(if max >= 2 {
            max - 1
        } else {
            1
        }) + seq!['…']
    }
}

/// Truncates `text` to `max_chars` characters with a trailing ellipsis.
pub fn ellipsize(text: &str, max_chars: usize) -> (r: String)
    ensures
        r@ == ellipsized(text@, max_chars as nat),
{
    let chars = to_chars(text);
    let cut = ellipsize_chars(chars.as_slice(), max_chars);
    string_from_chars(cut.as_slice())
}

/// [`ellipsize`] on characters.
fn ellipsize_chars(chars: &[char], max_chars: usize) -> (r: Vec<char>)
    ensures
        r@ == ellipsized(chars@, max_chars as nat),
{
    let mut out: Vec<char> = Vec::new();
    if chars.len() <= max_chars {
        let mut k: usize = 0;
        while k < chars.len()
            invariant
                k <= chars@.len(),
                out@ == chars@.take(k as int),
            decreases chars@.len() - k,
        {
            out.push(chars[k]);
            k = k + 1;
            assert(out@ =~= chars@.take(k as int));
        }
        assert(chars@.take(chars@.len() as int) =~= chars@);
        return out;
    }
    let keep: usize = if max_chars >= 2 {
        max_chars - 1
    } else {
        1
    };
    let mut k: usize = 0;
    while k < keep
        invariant
            k <= keep <= chars@.len(),
            out@ == chars@.take(k as int),
        decreases keep - k,
    {
        out.push(chars[k]);
        k = k + 1;
        assert(out@ =~= chars@.take(k as int));
    }
    out.push('…');
    out
}

// ── Command lookup and the page-text cache ─────────────────────────────────

/// The path of the last entry recorded for `name`.
pub open spec fn last_path(entries: Seq<(String, String)>, name: Seq<char>) -> Option<Seq<char>>
    decreases entries.len(),
{
    if entries.len() == 0 {
        None
    } else if entries.last().0@ == name {
        Some(entries.last().1@)
    } else {
        last_path(entries.drop_last(), name)
    }
}

/// Executable lookup table used by page commands.
#[derive(Debug, Clone, Default, PartialEq, Eq)]
pub struct CommandLookup {
    programs: Vec<(String, String)>,
}

impl CommandLookup {
    /// The path recorded for a command token, if any.
    pub closed spec fn resolved(&self, name: Seq<char>) -> Option<Seq<char>> {
        last_path(self.programs@, name)
    }

    /// Creates an empty lookup.
    pub fn new() -> (r: CommandLookup)
        ensures
            forall|n: Seq<char>| r.resolved(n) is None,
    {
        CommandLookup { programs: Vec::new() }
    }

    /// Records one executable token → resolved path mapping; a later entry
    /// for the same token replaces the earlier one.
    pub fn insert(&mut self, name: &str, path: &str)
        ensures
            forall|n: Seq<char>| #[trigger] final(self).resolved(n) == if n == name@ {
                Some(path@)
            } else {
                old(self).resolved(n)
            },
    {
        self.programs.push((owned(name), owned(path)));
        assert forall|n: Seq<char>| #[trigger] self.resolved(n) == if n == name@ {
            Some(path@)
        } else {
            old(self).resolved(n)
        } by {
            assert(self.programs@.drop_last() =~= old(self).programs@);
        }
    }

    /// Resolves a command token to the path the command runner should execute.
    pub fn resolve(&self, name: &str) -> (r: Option<&str>)
        ensures
            match r {
                Some(p) => self.resolved(name@) == Some(p@),
                None => self.resolved(name@) is None,
            },
    {
        let mut k: usize = self.programs.len();
        assert(self.programs@.take(k as int) =~= self.programs@);
        while k > 0
            invariant
                k <= self.programs@.len(),
                last_path(self.programs@, name@) == last_path(self.programs@.take(k as int), name@),
            decreases k,
        {
            let t = Ghost(self.programs@.take(k as int));
            assert(t@.drop_last() =~= self.programs@.take(k - 1));
            assert(t@.last() == self.programs@[k - 1]);
            if str_eq(self.programs[k - 1].0.as_str(), name) {
                return Some(self.programs[k - 1].1.as_str());
            }
            k = k - 1;
        }
        None
    }
}

/// Cached text of a command page.
#[derive(Debug, Clone, PartialEq, Eq)]
struct CachedCommandText {
    id: String,
    cached_at_nanos: u128,
    text: String,
}

/// The last entry cached for page `id`: when it was cached and its text.
pub open spec fn last_cached(entries: Seq<(Seq<char>, nat, Seq<char>)>, id: Seq<char>) -> Option<(nat, Seq<char>)>
    decreases entries.len(),
{
    if entries.len() == 0 {
        None
    } else if entries.last().0 == id {
        Some((entries.last().1, entries.last().2))
    } else {
        last_cached(entries.drop_last(), id)
    }
}

/// In-memory TTL cache for command-backed page text.
#[derive(Debug, Default, Clone, PartialEq, Eq)]
pub struct PageCommandCache {
    entries: Vec<CachedCommandText>,
}

/// Whether command output of `page` is cached: it has a nonzero TTL.
pub open spec fn caches(page: Page) -> bool {
    match page.source {
        PageSource::Command(spec) => spec.ttl_secs > 0,
        _ => false,
    }
}

/// A command page's time-to-live in nanoseconds.
pub open spec fn ttl_nanos(spec: PageCommandSpec) -> nat {
    (spec.ttl_secs * 1_000_000_000) as nat
}

impl PageCommandCache {
    spec fn rows(&self) -> Seq<(Seq<char>, nat, Seq<char>)> {
        Seq::new(
            self.entries@.len(),
            |i: int| (self.entries@[i].id@, self.entries@[i].cached_at_nanos as nat, self.entries@[i].text@),
        )
    }

    /// The time and text last cached for page `id`.
    pub closed spec fn cached(&self, id: Seq<char>) -> Option<(nat, Seq<char>)> {
        last_cached(self.rows(), id)
    }

    /// The text cached for `page` that is still younger than the page's TTL
    /// at time `now`; nothing for a page without a TTL.
    pub open spec fn fresh(&self, page: Page, now: nat) -> Option<Seq<char>> {
        match page.source {
            PageSource::Command(spec) => if spec.ttl_secs > 0 {
                match self.cached(page.id@) {
                    Some(entry) => if now - entry.0 < ttl_nanos(spec) {
                        Some(entry.1)
                    } else {
                        None
                    },
                    None => None,
                }
            } else {
                None
            },
            _ => None,
        }
    }

    /// Creates an empty cache.
    pub fn new() -> (r: PageCommandCache)
        ensures
            forall|id: Seq<char>| r.cached(id) is None,
    {
        PageCommandCache { entries: Vec::new() }
    }

    /// The text cached for `page` when the page has a TTL and the entry is
    /// younger than it at `now_nanos`.
    pub fn fresh_text(&self, page: &Page, now_nanos: u128) -> (r: Option<String>)
        ensures
            match self.fresh(*page, now_nanos as nat) {
                Some(t) => r matches Some(x) && x@ == t,
                None => r is None,
            },
    {
        let spec = match page.command() {
            Some(spec) => spec,
            None => return None,
        };
        if spec.ttl_secs == 0 {
            return None;
        }
        let mut k: usize = self.entries.len();
        assert(self.rows().take(k as int) =~= self.rows());
        while k > 0
            invariant
                k <= self.entries@.len(),
                page.source == PageSource::Command(spec),
                spec.ttl_secs > 0,
                last_cached(self.rows(), page.id@) == last_cached(self.rows().take(k as int), page.id@),
            decreases k,
        {
            let t = Ghost(self.rows().take(k as int));
            assert(t@.drop_last() =~= self.rows().take(k - 1));
            let e = &self.entries[k - 1];
            assert(t@.last() == self.rows()[k - 1]);
            if str_eq(e.id.as_str(), page.id) {
                assert(self.cached(page.id@) == Some((e.cached_at_nanos as nat, e.text@)));
                let ttl: u128 = (spec.ttl_secs as u128) * 1_000_000_000;
                let age: u128 = if now_nanos > e.cached_at_nanos {
                    now_nanos - e.cached_at_nanos
                } else {
                    0
                };
                if age < ttl {
                    return Some(e.text.clone());
                }
                return None;
            }
            k = k - 1;
        }
        None
    }

    /// Records `text` as cached for `page` at `now_nanos`, when the page has
    /// a TTL; a page without one is never cached.
    pub fn store(&mut self, page: &Page, now_nanos: u128, text: &str)
        ensures
            forall|id: Seq<char>| #[trigger] final(self).cached(id) == if id == page.id@ && caches(*page) {
                Some((now_nanos as nat, text@))
            } else {
                old(self).cached(id)
            },
    {
        let caches = match page.command() {
            Some(spec) => spec.ttl_secs > 0,
            None => false,
        };
        if caches {
            self.entries.push(CachedCommandText { id: owned(page.id), cached_at_nanos: now_nanos, text: owned(text) });
            assert(self.rows().drop_last() =~= old(self).rows());
        }
    }
}


/// A cached run is served until its TTL has passed: once the output of a
/// page with a TTL is stored at time `t` (see [`PageCommandCache::store`]),
/// the page's fresh text at `now` is that output exactly while less than
/// the TTL has elapsed since `t`, and nothing after.
pub proof fn lemma_cache_read_after_write(
    before: PageCommandCache,
    after: PageCommandCache,
    page: Page,
    t: nat,
    text: Seq<char>,
    now: nat,
)
    requires
        caches(page),
        forall|id: Seq<char>| #[trigger] after.cached(id) == if id == page.id@ {
            Some((t, text))
        } else {
            before.cached(id)
        },
    ensures
        after.fresh(page, now) == if now - t < ttl_nanos(page.source->Command_0) {
            Some(text)
        } else {
            None
        },
{
    assert(after.cached(page.id@) == Some((t, text)));
}

// ── Running a command page ─────────────────────────────────────────────────

/// What to do next for a command page.
#[derive(Debug, Clone, PartialEq, Eq)]
pub enum CommandPlan {
    /// The page text is already known: cached, not runnable, or not found.
    Text(String),
    /// Run `program` with `args`, then hand its output to [`finish_command`].
    Run {
        /// Path of the executable.
        program: String,
        /// Its arguments.
        args: Vec<String>,
    },
}

/// `plan` is the text `t`.
pub open spec fn plan_text(plan: CommandPlan, t: Seq<char>) -> bool {
    plan matches CommandPlan::Text(x) && x@ == t
}

/// `plan` runs `program` with `args`.
pub open spec fn plan_run(plan: CommandPlan, program: Seq<char>, args: Seq<Seq<char>>) -> bool {
    match plan {
        CommandPlan::Run { program: p, args: a } => p@ == program && views(a@) == args,
        _ => false,
    }
}

/// Decides how a command page gets its text: a fresh cached text; nothing
/// for a page that is not a command or has an empty argv; `exe: not found`
/// when the executable is unknown; else the command, under `script -qec`
/// for a pty page when `script` is known.
pub fn begin_command(page: &Page, commands: &CommandLookup, cache: &PageCommandCache, now_nanos: u128) -> (r: CommandPlan)
    ensures
        match page.source {
            PageSource::Command(spec) => match cache.fresh(*page, now_nanos as nat) {
                Some(t) => plan_text(r, t),
                None => if spec.argv@.len() == 0 {
                    plan_text(r, Seq::empty())
                } else {
                    match commands.resolved(spec.argv@[0]@) {
                        None => plan_text(r, spec.argv@[0]@ + ": not found"@),
                        Some(path) => match (if spec.pty {
                            commands.resolved("script"@)
                        } else {
                            None
                        }) {
                            Some(script) => plan_run(
                                r,
                                script,
                                seq!["-qec"@, shell_line(strs(spec.argv@)), "/dev/null"@],
                            ),
                            None => plan_run(r, path, strs(spec.argv@).drop_first()),
                        },
                    }
                },
            },
            _ => plan_text(r, Seq::empty()),
        },
{
    let spec = match page.command() {
        Some(spec) => spec,
        None => return CommandPlan::Text(String::new()),
    };
    if let Some(t) = cache.fresh_text(page, now_nanos) {
        return CommandPlan::Text(t);
    }
    if spec.argv.len() == 0 {
        return CommandPlan::Text(String::new());
    }
    let exe = spec.argv[0];
    let program = match commands.resolve(exe) {
        Some(p) => p,
        None => {
            let mut t = owned(exe);
            push_str(&mut t, ": not found");
            return CommandPlan::Text(t);
        },
    };
    if spec.pty {
        if let Some(script) = commands.resolve("script") {
            let args = vec![owned("-qec"), shell_join(spec.argv), owned("/dev/null")];
            assert(views(args@) =~= seq!["-qec"@, shell_line(strs(spec.argv@)), "/dev/null"@]);
            return CommandPlan::Run { program: owned(script), args };
        }
    }
    let mut args: Vec<String> = Vec::new();
    let mut k: usize = 1;
    while k < spec.argv.len()
        invariant
            1 <= k <= spec.argv@.len(),
            views(args@) == strs(spec.argv@).subrange(1, k as int),
        decreases spec.argv@.len() - k,
    {
        let ghost prev = views(args@);
        let arg = owned(spec.argv[k]);
        args.push(arg);
        assert(views(args@) =~= prev.push(spec.argv@[k as int]@));
        k = k + 1;
        assert(views(args@) =~= strs(spec.argv@).subrange(1, k as int));
    }
    assert(strs(spec.argv@).subrange(1, spec.argv@.len() as int) =~= strs(spec.argv@).drop_first());
    CommandPlan::Run { program: owned(program), args }
}

/// The text of a page whose command could not run: `exe: detail`.
pub fn command_failure(page: &Page, detail: &str) -> (r: String)
    ensures
        match page.source {
            PageSource::Command(spec) => if spec.argv@.len() > 0 {
                r@ == spec.argv@[0]@ + ": "@ + detail@
            } else {
                r@.len() == 0
            },
            _ => r@.len() == 0,
        },
{
    match page.command() {
        Some(spec) => if spec.argv.len() > 0 {
            let mut t = owned(spec.argv[0]);
            push_str(&mut t, ": ");
            push_str(&mut t, detail);
            t
        } else {
            String::new()
        },
        None => String::new(),
    }
}

/// A line that shows nothing once colour sequences are removed.
pub open spec fn blank(line: Seq<char>) -> bool {
    forall|i: int| 0 <= i < strip_sgr(line).len() ==> is_space(#[trigger] strip_sgr(line)[i])
}

/// `lines` without its trailing blank lines.
pub open spec fn without_blank_tail(lines: Seq<Seq<char>>) -> Seq<Seq<char>>
    decreases lines.len(),
{
    if lines.len() > 0 && blank(lines.last()) {
        without_blank_tail(lines.drop_last())
    } else {
        lines
    }
}

/// The visible text of a command page: the output without terminal noise
/// and trailing blank lines, cut to `max_lines` lines when that is nonzero,
/// or `exe: no output` when nothing is left.
pub open spec fn page_text(exe: Seq<char>, max_lines: nat, raw: Seq<char>) -> Seq<char> {
    let lines = without_blank_tail(split_on(without_noise(raw), '\n'));
    let capped = if max_lines > 0 && lines.len() > max_lines {
        lines.take(max_lines as int)
    } else {
        lines
    };
    if capped.len() == 0 {
        exe + ": no output"@
    } else {
        join_with(capped, "\n"@)
    }
}

fn is_blank(line: &[char]) -> (r: bool)
    ensures
        r == blank(line@),
{
    let visible = strip_sgr_chars(line);
    let mut k: usize = 0;
    while k < visible.len()
        invariant
            k <= visible@.len(),
            visible@ == strip_sgr(line@),
            forall|m: int| 0 <= m < k ==> is_space(#[trigger] visible@[m]),
        decreases visible@.len() - k,
    {
        if !is_space_char(visible[k]) {
            return false;
        }
        k = k + 1;
    }
    true
}

/// Turns the output of a command page into its text (see [`page_text`]),
/// reading stdout, or stderr when stdout is empty; caches the text when the
/// page has a TTL. A page that is not a runnable command gives no text.
pub fn finish_command(page: &Page, cache: &mut PageCommandCache, now_nanos: u128, stdout: &str, stderr: &str) -> (r: String)
    ensures
        match page.source {
            PageSource::Command(spec) => if spec.argv@.len() > 0 {
                &&& r@ == page_text(spec.argv@[0]@, spec.max_lines as nat, if stdout@.len() > 0 {
                    stdout@
                } else {
                    stderr@
                })
                &&& forall|id: Seq<char>| #[trigger] final(cache).cached(id) == if id == page.id@ && caches(*page) {
                    Some((now_nanos as nat, r@))
                } else {
                    old(cache).cached(id)
                }
            } else {
                r@.len() == 0 && *final(cache) == *old(cache)
            },
            _ => r@.len() == 0 && *final(cache) == *old(cache),
        },
{
    let spec = match page.command() {
        Some(spec) => spec,
        None => return String::new(),
    };
    if spec.argv.len() == 0 {
        return String::new();
    }
    let exe = spec.argv[0];
    let out_chars = to_chars(stdout);
    let raw = if out_chars.len() > 0 {
        stdout
    } else {
        stderr
    };
    let cleaned = strip_terminal_noise(raw);
    let chars = to_chars(cleaned.as_str());
    let lines = split_chars(chars.as_slice(), '\n');
    let ghost pieces = split_on(without_noise(raw@), '\n');
    let mut n: usize = lines.len();
    assert(pieces.take(n as int) =~= pieces);
    while n > 0 && is_blank(lines[n - 1].as_slice())
        invariant
            n <= lines@.len(),
            pieces.len() == lines@.len(),
            forall|k: int| 0 <= k < lines@.len() ==> (#[trigger] lines@[k])@ == pieces[k],
            without_blank_tail(pieces) == without_blank_tail(pieces.take(n as int)),
        decreases n,
    {
        assert(pieces.take(n as int).drop_last() =~= pieces.take(n - 1));
        assert(pieces.take(n as int).last() == lines@[n - 1]@);
        n = n - 1;
    }
    proof {
        if n > 0 {
            assert(pieces.take(n as int).last() == lines@[n - 1]@);
        }
        assert(without_blank_tail(pieces) == pieces.take(n as int));
    }
    let m: usize = if spec.max_lines > 0 && n > spec.max_lines {
        spec.max_lines
    } else {
        n
    };
    proof {
        assert(pieces.take(n as int).take(m as int) =~= pieces.take(m as int));
    }
    let mut text = String::new();
    if m == 0 {
        push_str(&mut text, exe);
        push_str(&mut text, ": no output");
    } else {
        let mut i: usize = 0;
        while i < m
            invariant
                i <= m <= lines@.len(),
                pieces.len() == lines@.len(),
                forall|k: int| 0 <= k < lines@.len() ==> (#[trigger] lines@[k])@ == pieces[k],
                text@ == join_with(pieces.take(i as int), "\n"@),
            decreases m - i,
        {
            let ghost prev = text@;
            if i > 0 {
                push_str(&mut text, "\n");
            }
            push_chars(&mut text, lines[i].as_slice());
            proof {
                let t = pieces.take(i as int + 1);
                assert(t.drop_last() =~= pieces.take(i as int));
                assert(t.last() == lines@[i as int]@);
                if i == 0 {
                    assert(text@ =~= t[0]);
                } else {
                    assert(text@ =~= prev + "\n"@ + t.last());
                }
            }
            i = i + 1;
        }
    }
    cache.store(page, now_nanos, text.as_str());
    text
}


// ── Page body ──────────────────────────────────────────────────────────────

/// The body of a command page whose command printed `text`: the
/// connections view for a page coloured as connections, else the text as
/// monospace HTML, followed by the pager sized to the body's width.
pub open spec fn page_body(page: Page, idx: nat, total: nat, min_width: nat, text: Seq<char>, env: PageEnvironment) -> Seq<char> {
    match page.source {
        PageSource::Command(spec) => match spec.colorize {
            Some(PageColorizer::Connections) => {
                let (inner, width) = connections::connections_page(connections::rows_of(text, env), min_width);
                "<div class=\"page\">"@ + inner + "</div>"@ + pager(idx, width, total)
            },
            None => "<div class=\"page\">"@ + mono_html(text) + "</div>"@ + pager(
                idx,
                widest(split_on(text, '\n')),
                total,
            ),
        },
        _ => Seq::empty(),
    }
}

/// Returns the inner HTML plus pager of a command page, given the text its
/// command produced (see [`page_body`]).
pub fn page_inner(page: &Page, idx: usize, total: usize, min_width: usize, text: &str, env: &PageEnvironment) -> (r: String)
    ensures
        r@ == page_body(*page, idx as nat, total as nat, min_width as nat, text@, *env),
{
    let spec = match page.command() {
        Some(spec) => spec,
        None => return String::new(),
    };
    let (inner, width) = match spec.colorize {
        Some(PageColorizer::Connections) => connections::format_connections(text, min_width, env),
        None => (text_to_mono_html(text), text_width(text)),
    };
    let mut out = owned("<div class=\"page\">");
    push_str(&mut out, inner.as_str());
    push_str(&mut out, "</div>");
    let pager_row = pager_html(idx, width, total);
    push_str(&mut out, pager_row.as_str());
    out
}

} // verus!
