//! Building blocks of the deep-dive tooltip pages: the page shell, the
//! process table fields, graph value labels, and embedded images.

use vstd::prelude::*;

use crate::domain::state::TopProcessDetails;
use crate::page_commands::{escape_html, escaped, top_process_page_rows};
use crate::page_commands::{pager, pager_html};
use crate::render::model::{
    css_class_active, css_class_from_thresholds, join_with, nbsp, push_nbsp, threshold_band, EMPTY_VALUE,
};
use crate::render::traces::{braille_html, braille_markup, TraceConfig, TraceMetric};
use crate::text::{
    decimal, digit_char, lemma_decimal_short, owned, views, push_char, push_i64, push_str, push_u64, signed_decimal, to_chars,
    usize_to_string,
};

verus! {

broadcast use vstd::string::group_string_axioms;

/// Height in pixels of an embedded graph image.
pub const GRAPH_HEIGHT: usize = 84;

/// The standard tooltip shell around a page body: an optional style sheet,
/// then the header, body and footer in the tooltip root.
pub open spec fn tooltip_shell(body: Seq<char>, css: Seq<char>, header: Seq<char>, footer: Seq<char>) -> Seq<char> {
    (if css.len() == 0 {
        Seq::empty()
    } else {
        "<style>"@ + css + "</style>"@
    }) + "<div class=\"tooltip\">"@ + header + body + footer + "</div>"@
}

/// Wraps page HTML in the standard tooltip shell.
pub fn wrap_tooltip(body: &str, css: &str, header: &str, footer: &str) -> (r: String)
    ensures
        r@ == tooltip_shell(body@, css@, header@, footer@),
{
    let mut out = String::new();
    if css.unicode_len() > 0 {
        push_str(&mut out, "<style>");
        push_str(&mut out, css);
        push_str(&mut out, "</style>");
    }
    push_str(&mut out, "<div class=\"tooltip\">");
    push_str(&mut out, header);
    push_str(&mut out, body);
    push_str(&mut out, footer);
    push_str(&mut out, "</div>");
    out
}

/// One field of the process table: the escaped text, in a span when it has
/// a class, padded with `&nbsp;` to `width` characters on the left (right
/// aligned) or on the right.
pub open spec fn field_html(text: Seq<char>, width: nat, class: Option<Seq<char>>, right: bool) -> Seq<char> {
    let padding = nbsp(
        if width > text.len() {
            (width - text.len()) as nat
        } else {
            0
        },
    );
    let body = match class {
        Some(c) => "<span class=\""@ + c + "\">"@ + escaped(text) + "</span>"@,
        None => escaped(text),
    };
    if right {
        padding + body
    } else {
        body + padding
    }
}

/// Renders one field of the process table (see [`field_html`]).
pub fn render_field(text: &str, width: usize, class: Option<&str>, right: bool) -> (r: String)
    ensures
        r@ == field_html(text@, width as nat, match class {
            Some(c) => Some(c@),
            None => None,
        }, right),
{
    let count = text.unicode_len();
    let pad: usize = if width > count {
        width - count
    } else {
        0
    };
    let escaped_text = escape_html(text);
    let mut body = String::new();
    match class {
        Some(c) => {
            push_str(&mut body, "<span class=\"");
            push_str(&mut body, c);
            push_str(&mut body, "\">");
            push_str(&mut body, escaped_text.as_str());
            push_str(&mut body, "</span>");
        },
        None => {
            push_str(&mut body, escaped_text.as_str());
        },
    }
    let mut out = String::new();
    if right {
        push_nbsp(&mut out, pad);
        push_str(&mut out, body.as_str());
    } else {
        push_str(&mut out, body.as_str());
        push_nbsp(&mut out, pad);
    }
    out
}

/// A command cut to `width` characters, its last shown one replaced by `…`
/// (nothing at all for a width of zero).
pub open spec fn clipped(command: Seq<char>, width: nat) -> Seq<char> {
    if command.len() <= width {
        command
    } else if width == 0 {
        Seq::empty()
    } else {
        command.take(width - 1) + seq!['…']
    }
}

/// Cuts a command line to a column width (see [`clipped`]).
pub fn clip_command(command: &str, width: usize) -> (r: String)
    ensures
        r@ == clipped(command@, width as nat),
{
    let chars = to_chars(command);
    if chars.len() <= width {
        return owned(command);
    }
    if width == 0 {
        return String::new();
    }
    let mut out = String::new();
    let mut k: usize = 0;
    while k < width - 1
        invariant
            k <= width - 1 < chars@.len(),
            out@ == chars@.take(k as int),
        decreases width - 1 - k,
    {
        push_char(&mut out, chars[k]);
        k = k + 1;
        assert(out@ =~= chars@.take(k as int));
    }
    push_char(&mut out, '…');
    out
}

/// A graph's current value: `--` when absent, else the percentage in the
/// class of its threshold band (no class without thresholds).
pub open spec fn value_band_html(current: Option<i32>, thresholds: Option<(i32, i32)>) -> Seq<char> {
    match current {
        None => "<span class=\"val\">"@ + EMPTY_VALUE@ + "</span>"@,
        Some(v) => "<span class=\"val "@ + match thresholds {
            Some(t) => threshold_band(v as int, t.0 as int, t.1 as int),
            None => Seq::empty(),
        } + "\">"@ + signed_decimal(v as int) + "%</span>"@,
    }
}

/// Renders a graph's current value in its threshold band's class.
pub fn graph_value_band(current: Option<i32>, thresholds: Option<(i32, i32)>) -> (r: String)
    ensures
        r@ == value_band_html(current, thresholds),
{
    let mut out = String::new();
    match current {
        None => {
            push_str(&mut out, "<span class=\"val\">");
            push_str(&mut out, EMPTY_VALUE);
            push_str(&mut out, "</span>");
        },
        Some(v) => {
            push_str(&mut out, "<span class=\"val ");
            match thresholds {
                Some(t) => {
                    let class = css_class_from_thresholds(v as i64, (t.0 as i64, t.1 as i64));
                    push_str(&mut out, class);
                },
                None => {},
            }
            push_str(&mut out, "\">");
            push_i64(&mut out, v as i64);
            push_str(&mut out, "%</span>");
        },
    }
    assert(out@ =~= value_band_html(current, thresholds));
    out
}

/// A graph's current value classed `active` when above its threshold.
pub open spec fn value_active_html(current: Option<i32>, threshold: Option<i32>) -> Seq<char> {
    match current {
        None => "<span class=\"val\">"@ + EMPTY_VALUE@ + "</span>"@,
        Some(v) => "<span class=\"val "@ + match threshold {
            Some(t) => if v > t {
                "active"@
            } else {
                Seq::empty()
            },
            None => Seq::empty(),
        } + "\">"@ + signed_decimal(v as int) + "%</span>"@,
    }
}

/// Renders a graph's current value, classed `active` above its threshold.
pub fn graph_value_active(current: Option<i32>, threshold: Option<i32>) -> (r: String)
    ensures
        r@ == value_active_html(current, threshold),
{
    let mut out = String::new();
    match current {
        None => {
            push_str(&mut out, "<span class=\"val\">");
            push_str(&mut out, EMPTY_VALUE);
            push_str(&mut out, "</span>");
        },
        Some(v) => {
            push_str(&mut out, "<span class=\"val ");
            match threshold {
                Some(t) => {
                    match css_class_active(v as i64, t as i64) {
                        Some(class) => push_str(&mut out, class),
                        None => {},
                    }
                },
                None => {},
            }
            push_str(&mut out, "\">");
            push_i64(&mut out, v as i64);
            push_str(&mut out, "%</span>");
        },
    }
    assert(out@ =~= value_active_html(current, threshold));
    out
}

/// The base64 digit of a six-bit value.
pub open spec fn b64_digit(v: int) -> char {
    if v < 26 {
        ((v + 65) as u32) as char
    } else if v < 52 {
        ((v - 26 + 97) as u32) as char
    } else if v < 62 {
        ((v - 52 + 48) as u32) as char
    } else if v == 62 {
        '+'
    } else {
        '/'
    }
}

/// The four base64 characters of one group of up to three bytes, padded
/// with `=`.
pub open spec fn b64_group(g: Seq<u8>) -> Seq<char> {
    let b0 = g[0] as int;
    let b1 = if g.len() > 1 {
        g[1] as int
    } else {
        0
    };
    let b2 = if g.len() > 2 {
        g[2] as int
    } else {
        0
    };
    seq![b64_digit(b0 / 4), b64_digit((b0 % 4) * 16 + b1 / 16)] + (if g.len() > 1 {
        seq![b64_digit((b1 % 16) * 4 + b2 / 64)]
    } else {
        seq!['=']
    }) + (if g.len() > 2 {
        seq![b64_digit(b2 % 64)]
    } else {
        seq!['=']
    })
}

/// Standard base64 (with `=` padding) of a byte string.
pub open spec fn base64(bytes: Seq<u8>) -> Seq<char>
    decreases bytes.len(),
{
    if bytes.len() == 0 {
        Seq::empty()
    } else if bytes.len() <= 3 {
        b64_group(bytes)
    } else {
        b64_group(bytes.take(3)) + base64(bytes.skip(3))
    }
}

fn b64_char(v: u8) -> (r: char)
    requires
        v < 64,
    ensures
        r == b64_digit(v as int),
{
    if v < 26 {
        (v + 65) as char
    } else if v < 52 {
        (v - 26 + 97) as char
    } else if v < 62 {
        (v - 52 + 48) as char
    } else if v == 62 {
        '+'
    } else {
        '/'
    }
}

/// Encodes bytes as standard base64 (see [`base64`]).
pub fn encode_base64(bytes: &[u8]) -> (r: String)
    ensures
        r@ == base64(bytes@),
{
    let mut out = String::new();
    let mut i: usize = 0;
    assert(bytes@.skip(0) =~= bytes@);
    while i < bytes.len()
        invariant
            i <= bytes@.len(),
            out@ + base64(bytes@.skip(i as int)) == base64(bytes@),
        decreases bytes@.len() - i,
    {
        let ghost rest = bytes@.skip(i as int);
        let n: usize = bytes.len() - i;
        let b0 = bytes[i];
        let b1: u8 = if n > 1 {
            bytes[i + 1]
        } else {
            0
        };
        let b2: u8 = if n > 2 {
            bytes[i + 2]
        } else {
            0
        };
        let ghost before = out@;
        push_char(&mut out, b64_char(b0 / 4));
        push_char(&mut out, b64_char((b0 % 4) * 16 + b1 / 16));
        if n > 1 {
            push_char(&mut out, b64_char((b1 % 16) * 4 + b2 / 64));
        } else {
            push_char(&mut out, '=');
        }
        if n > 2 {
            push_char(&mut out, b64_char(b2 % 64));
        } else {
            push_char(&mut out, '=');
        }
        let step: usize = if n >= 3 {
            3
        } else {
            n
        };
        proof {
            let g = rest.take(step as int);
            assert(g[0] == b0);
            if n > 1 {
                assert(g[1] == b1);
            }
            if n > 2 {
                assert(g[2] == b2);
            }
            assert(out@ =~= before + b64_group(g));
            if n > 3 {
                assert(rest.skip(3) =~= bytes@.skip(i + 3));
                assert(base64(rest) == b64_group(rest.take(3)) + base64(rest.skip(3)));
            } else {
                assert(g =~= rest);
                assert(bytes@.skip(i + step) =~= Seq::<u8>::empty());
            }
        }
        i = i + step;
    }
    assert(out@ + base64(bytes@.skip(i as int)) =~= out@);
    out
}

/// An embedded PNG graph: the image as a base64 data URI, `width` wide and
/// the fixed graph height tall.
pub open spec fn png_html(png: Seq<u8>, width: nat) -> Seq<char> {
    "<div><img src=\"data:image/png;base64,"@ + base64(png) + "\" width=\""@ + decimal(width) + "\" height=\""@
        + decimal(GRAPH_HEIGHT as nat) + "\"></div>"@
}

/// Embeds a PNG graph (see [`png_html`]).
pub fn png_img(png: &[u8], width: usize) -> (r: String)
    ensures
        r@ == png_html(png@, width as nat),
{
    let mut out = String::new();
    push_str(&mut out, "<div><img src=\"data:image/png;base64,");
    let data = encode_base64(png);
    push_str(&mut out, data.as_str());
    push_str(&mut out, "\" width=\"");
    push_u64(&mut out, width as u64);
    push_str(&mut out, "\" height=\"");
    push_u64(&mut out, GRAPH_HEIGHT as u64);
    push_str(&mut out, "\"></div>");
    out
}


// ── The CPU cores page ─────────────────────────────────────────────────────

/// The label of core `index`.
pub open spec fn core_label(index: nat) -> Seq<char> {
    "Core "@ + decimal(index) + ":"@
}

/// An integer as a count, negatives counting as zero.
pub open spec fn count_of(x: int) -> nat {
    if x > 0 {
        x as nat
    } else {
        0
    }
}

/// The history of core `index`, when there is one.
pub open spec fn core_history(hist: Option<Seq<Vec<i32>>>, index: int) -> Option<Seq<i32>> {
    match hist {
        Some(h) => if 0 <= index < h.len() {
            Some(h[index]@)
        } else {
            None
        },
        None => None,
    }
}

/// The braille columns of each core row: what the tooltip width leaves
/// after the label, the value and two gaps (at least one), or the configured
/// length when the tooltip has no fixed width.
pub open spec fn core_braille_width(tooltip_width: i32, label_width: nat) -> Option<usize> {
    if tooltip_width > 0 {
        let w = count_of(tooltip_width - (label_width + 4 + 2));
        Some(
            (if w >= 1 {
                w
            } else {
                1
            }) as usize,
        )
    } else {
        None
    }
}

/// One core row: its label padded to the label width, its braille history,
/// and its usage right-aligned in four columns in its threshold band.
pub open spec fn core_line(
    trace: TraceConfig,
    label_width: nat,
    index: nat,
    current: i32,
    history: Option<Seq<i32>>,
    braille: Option<usize>,
    t: (i32, i32),
) -> Seq<char> {
    let label = core_label(index);
    let value = signed_decimal(current as int) + "%"@;
    "<span class=\"label\">"@ + label + nbsp(count_of(label_width - label.len()) + 1) + "</span>"@ + braille_markup(
        trace,
        history,
        TraceMetric::Cpu,
        true,
        braille,
    ) + "<span class=\"gap\">&nbsp;</span><span class=\"val "@ + threshold_band(current as int, t.0 as int, t.1 as int)
        + "\">"@ + nbsp(count_of(4 - value.len())) + value + "</span>"@
}

/// The body of the CPU cores page and the width its pager is centred on;
/// `None` without per-core usage.
pub open spec fn cpu_cores_view(trace: TraceConfig, tooltip_width: i32, t: (i32, i32), usage: Seq<i32>, hist: Option<Seq<Vec<i32>>>) -> Option<(Seq<char>, nat)> {
    if usage.len() == 0 {
        None
    } else {
        let lw = core_label((usage.len() - 1) as nat).len();
        let bw = core_braille_width(tooltip_width, lw);
        let lines = Seq::new(usage.len(), |i: int| core_line(trace, lw, i as nat, usage[i], core_history(hist, i), bw, t));
        let columns: nat = match bw {
            Some(w) => w as nat,
            None => count_of(trace.braille_tooltip.cpu_braille_length as int),
        };
        Some(("<div class=\"page\">"@ + join_with(lines, "<br>"@) + "</div>"@, lw + 1 + columns + 1 + 4))
    }
}

proof fn lemma_decimal_len_mono(a: nat, b: nat)
    requires
        a <= b,
    ensures
        decimal(a).len() <= decimal(b).len(),
    decreases b,
{
    if b >= 10 && a >= 10 {
        lemma_decimal_len_mono(a / 10, b / 10);
    } else if b >= 10 {
        assert(decimal(b).len() == decimal(b / 10).len() + 1);
    }
}

/// The CPU cores page body is made of `lines`, one per core, each starting
/// with the core's label cell: the label, `pads[k]` (at least one) spaces
/// of padding, then the rest of the row; and the page is at least as wide
/// as every label cell plus the gap and four-column value.
pub open spec fn aligned_cores(
    body: Seq<char>,
    width: nat,
    n: nat,
    lines: Seq<Seq<char>>,
    pads: Seq<nat>,
    rests: Seq<Seq<char>>,
) -> bool {
    &&& lines.len() == n && pads.len() == n && rests.len() == n
    &&& body == "<div class=\"page\">"@ + join_with(lines, "<br>"@) + "</div>"@
    &&& forall|k: int|
        0 <= k < n ==> #[trigger] lines[k] == "<span class=\"label\">"@ + core_label(k as nat) + nbsp(pads[k]) + "</span>"@
            + rests[k] && pads[k] >= 1 && core_label(k as nat).len() + pads[k] == core_label(0).len() + pads[0]
            && width >= core_label(k as nat).len() + pads[k] + 5
}

/// Every core row's label cell has the same width, so the values line up:
/// each label is padded to the widest label (that of the last core) plus
/// one column, whatever the number of cores.
pub proof fn lemma_core_rows_align(trace: TraceConfig, tooltip_width: i32, t: (i32, i32), usage: Seq<i32>, hist: Option<Seq<Vec<i32>>>)
    requires
        usage.len() > 0,
    ensures
        cpu_cores_view(trace, tooltip_width, t, usage, hist) matches Some(v) && exists|
            lines: Seq<Seq<char>>,
            pads: Seq<nat>,
            rests: Seq<Seq<char>>,
        | #[trigger] aligned_cores(v.0, v.1, usage.len(), lines, pads, rests),
{
    let n = usage.len();
    let lw = core_label((n - 1) as nat).len();
    let bw = core_braille_width(tooltip_width, lw);
    let lines = Seq::new(n, |i: int| core_line(trace, lw, i as nat, usage[i], core_history(hist, i), bw, t));
    let pads = Seq::new(n, |i: int| count_of(lw - core_label(i as nat).len()) + 1);
    let rests = Seq::new(
        n,
        |i: int|
            braille_markup(trace, core_history(hist, i), TraceMetric::Cpu, true, bw)
                + "<span class=\"gap\">&nbsp;</span><span class=\"val "@ + threshold_band(usage[i] as int, t.0 as int, t.1 as int)
                + "\">"@ + nbsp(count_of(4 - (signed_decimal(usage[i] as int) + "%"@).len())) + (signed_decimal(
                usage[i] as int,
            ) + "%"@) + "</span>"@,
    );
    let v = cpu_cores_view(trace, tooltip_width, t, usage, hist)->0;
    assert forall|k: int| 0 <= k < n implies #[trigger] core_label(k as nat).len() <= lw by {
        lemma_decimal_len_mono(k as nat, (n - 1) as nat);
    }
    assert forall|k: int| 0 <= k < n implies #[trigger] lines[k] == "<span class=\"label\">"@ + core_label(k as nat)
        + nbsp(pads[k]) + "</span>"@ + rests[k] && pads[k] >= 1 && core_label(k as nat).len() + pads[k] == core_label(
        0,
    ).len() + pads[0] && v.1 >= core_label(k as nat).len() + pads[k] + 5 by {
        assert(core_label(0).len() <= lw);
        assert(lines[k] =~= "<span class=\"label\">"@ + core_label(k as nat) + nbsp(pads[k]) + "</span>"@ + rests[k]);
    }
    assert(aligned_cores(v.0, v.1, n, lines, pads, rests));
}

fn core_row(
    trace: &TraceConfig,
    label_width: usize,
    index: usize,
    current: i32,
    history: Option<&[i32]>,
    braille: Option<usize>,
    t: (i32, i32),
) -> (r: String)
    requires
        label_width < 0x1000_0000,
    ensures
        r@ == core_line(*trace, label_width as nat, index as nat, current, match history {
            Some(h) => Some(h@),
            None => None,
        }, braille, t),
{
    let mut label = owned("Core ");
    push_u64(&mut label, index as u64);
    push_str(&mut label, ":");
    let label_len = label.as_str().unicode_len();
    let mut value = String::new();
    push_i64(&mut value, current as i64);
    push_str(&mut value, "%");
    let value_len = value.as_str().unicode_len();
    let mut out = owned("<span class=\"label\">");
    push_str(&mut out, label.as_str());
    let pad: usize = if label_width > label_len {
        label_width - label_len
    } else {
        0
    };
    push_nbsp(&mut out, pad + 1);
    push_str(&mut out, "</span>");
    let spark = braille_html(trace, history, TraceMetric::Cpu, true, braille);
    push_str(&mut out, spark.as_str());
    push_str(&mut out, "<span class=\"gap\">&nbsp;</span><span class=\"val ");
    push_str(&mut out, css_class_from_thresholds(current as i64, (t.0 as i64, t.1 as i64)));
    push_str(&mut out, "\">");
    let vpad: usize = if 4 > value_len {
        4 - value_len
    } else {
        0
    };
    push_nbsp(&mut out, vpad);
    push_str(&mut out, value.as_str());
    push_str(&mut out, "</span>");
    out
}

/// The body of the CPU cores page and its width (see [`cpu_cores_view`]).
pub fn cpu_cores_page(
    trace: &TraceConfig,
    tooltip_width: i32,
    thresholds: (i32, i32),
    usage: Option<&[i32]>,
    history: Option<&Vec<Vec<i32>>>,
) -> (r: Option<(String, usize)>)
    ensures
        match usage {
            Some(u) => match cpu_cores_view(*trace, tooltip_width, thresholds, u@, match history {
                Some(h) => Some(h@),
                None => None,
            }) {
                Some(v) => r matches Some(x) && x.0@ == v.0 && x.1 as nat == v.1,
                None => r is None,
            },
            None => r is None,
        },
{
    let u = match usage {
        Some(u) => u,
        None => return None,
    };
    if u.len() == 0 {
        return None;
    }
    let ghost hist = match history {
        Some(h) => Some(h@),
        None => None,
    };
    let last = usize_to_string(u.len() - 1);
    proof {
        crate::text::lemma_decimal_short((u.len() - 1) as nat);
    }
    let label_width: usize = 6 + last.as_str().unicode_len();
    proof {
        reveal_strlit("Core ");
        reveal_strlit(":");
        assert(core_label((u@.len() - 1) as nat).len() == label_width);
    }
    let braille: Option<usize> = if tooltip_width > 0 {
        let w: usize = tooltip_width as usize;
        let used: usize = label_width + 6;
        let left: usize = if w > used {
            w - used
        } else {
            0
        };
        Some(
            if left >= 1 {
                left
            } else {
                1
            },
        )
    } else {
        None
    };
    assert(braille == core_braille_width(tooltip_width, label_width as nat));
    let ghost lines = Seq::new(
        u@.len(),
        |i: int| core_line(*trace, label_width as nat, i as nat, u@[i], core_history(hist, i), braille, thresholds),
    );
    let mut body = String::new();
    let mut k: usize = 0;
    while k < u.len()
        invariant
            k <= u@.len(),
            label_width < 0x1000_0000,
            lines.len() == u@.len(),
            forall|i: int| 0 <= i < u@.len() ==> #[trigger] lines[i] == core_line(
                *trace,
                label_width as nat,
                i as nat,
                u@[i],
                core_history(hist, i),
                braille,
                thresholds,
            ),
            hist == match history {
                Some(h) => Some(h@),
                None => None::<Seq<Vec<i32>>>,
            },
            body@ == join_with(lines.take(k as int), "<br>"@),
        decreases u@.len() - k,
    {
        let h: Option<&[i32]> = match history {
            Some(hs) => if k < hs.len() {
                Some(hs[k].as_slice())
            } else {
                None
            },
            None => None,
        };
        assert(match h {
            Some(x) => Some(x@),
            None => None,
        } == core_history(hist, k as int));
        let row = core_row(trace, label_width, k, u[k], h, braille, thresholds);
        let ghost prev = body@;
        if k > 0 {
            push_str(&mut body, "<br>");
        }
        push_str(&mut body, row.as_str());
        assert(lines.take(k + 1).drop_last() =~= lines.take(k as int));
        assert(lines.take(k + 1).last() == lines[k as int]);
        if k == 0 {
            assert(body@ =~= join_with(lines.take(1), "<br>"@));
        } else {
            assert(body@ =~= join_with(lines.take(k + 1), "<br>"@));
        }
        k = k + 1;
    }
    assert(lines.take(u@.len() as int) =~= lines);
    let columns: usize = match braille {
        Some(w) => w,
        None => {
            let c = trace.braille_tooltip.cpu_braille_length;
            if c > 0 {
                c as usize
            } else {
                0
            }
        },
    };
    let mut out = owned("<div class=\"page\">");
    push_str(&mut out, body.as_str());
    push_str(&mut out, "</div>");
    Some((out, label_width + 1 + columns + 1 + 4))
}

/// The CPU cores page: a no-data note without per-core usage, else one row
/// per core, in the tooltip shell with the pager of page `idx` of `total`
/// under it when one is asked for.
pub fn format_cpu_cores(
    trace: &TraceConfig,
    tooltip_width: i32,
    thresholds: (i32, i32),
    usage: Option<&[i32]>,
    history: Option<&Vec<Vec<i32>>>,
    css: &str,
    header: &str,
    pager_of: Option<(usize, usize)>,
) -> (r: String)
    ensures
        match (match usage {
            Some(u) => cpu_cores_view(*trace, tooltip_width, thresholds, u@, match history {
                Some(h) => Some(h@),
                None => None,
            }),
            None => None,
        }) {
            Some(v) => r@ == tooltip_shell(v.0, css@, header@, match pager_of {
                Some(p) => pager(p.0 as nat, v.1, p.1 as nat),
                None => Seq::empty(),
            }),
            None => r@ == tooltip_shell("<div class=\"page\">cpu cores: no data yet</div>"@, css@, header@, Seq::empty()),
        },
{
    match cpu_cores_page(trace, tooltip_width, thresholds, usage, history) {
        Some((body, width)) => {
            let footer = match pager_of {
                Some((idx, total)) => pager_html(idx, width, total),
                None => String::new(),
            };
            wrap_tooltip(body.as_str(), css, header, footer.as_str())
        },
        None => {
            proof {
                reveal_strlit("");
            }
            wrap_tooltip("<div class=\"page\">cpu cores: no data yet</div>", css, header, "")
        },
    }
}

// ── Top processes page ────────────────────────────────────────────────────

/// Columns of a process line besides the pid and the command: two and one
/// separating spaces, the four-wide `%CPU` and the five-wide `%MEM`.
pub const PROCESS_SIDE_COLUMNS: usize = 13;

/// The narrowest pid and command columns of the process table.
#[derive(Debug, Clone, Copy, PartialEq, Eq)]
pub struct ProcessColumns {
    /// Narrowest pid column.
    pub min_pid: u16,
    /// Narrowest command column.
    pub min_command: u16,
}

/// A memory share in tenths of a percent, with one decimal (`12.3`).
pub open spec fn tenths_text(t: nat) -> Seq<char> {
    decimal(t / 10) + "."@ + seq![digit_char(t % 10)]
}

/// One line of the process table: the right-aligned pid, the left-aligned
/// command, then the right-aligned CPU and memory shares.
pub open spec fn process_line(
    fields: (Seq<char>, Seq<char>, Seq<char>, Seq<char>),
    classes: (Option<Seq<char>>, Option<Seq<char>>, Option<Seq<char>>, Option<Seq<char>>),
    pid_width: nat,
    command_width: nat,
) -> Seq<char> {
    field_html(fields.0, pid_width, classes.0, true) + "&nbsp;&nbsp;"@ + field_html(fields.1, command_width, classes.1, false)
        + "&nbsp;"@ + field_html(fields.2, 4, classes.2, true) + "&nbsp;"@ + field_html(fields.3, 5, classes.3, true)
}

/// The header line of the process table.
pub open spec fn process_header(pid_width: nat, command_width: nat) -> Seq<char> {
    process_line(
        ("PID"@, "COMMAND"@, "%CPU"@, "%MEM"@),
        (Some("label"@), Some("label"@), Some("label"@), Some("label"@)),
        pid_width,
        command_width,
    )
}

/// The line of one process: its command clipped to the command column, its
/// CPU share banded by `cpu`, its memory share by `mem` (thresholds in whole
/// percent).
pub open spec fn process_row(
    row: TopProcessDetails,
    pid_width: nat,
    command_width: nat,
    cpu: (i32, i32),
    mem: (i32, i32),
) -> Seq<char> {
    process_line(
        (
            decimal(row.pid as nat),
            clipped(row.command@, command_width),
            signed_decimal(row.cpu_percent as int),
            tenths_text(row.memory_tenths as nat),
        ),
        (
            Some("label"@),
            None,
            Some("val "@ + threshold_band(row.cpu_percent as int, cpu.0 as int, cpu.1 as int)),
            Some("val "@ + threshold_band(row.memory_tenths as int, 10 * mem.0, 10 * mem.1)),
        ),
        pid_width,
        command_width,
    )
}

/// The pid column: as wide as the widest pid shown, and at least `min`.
pub open spec fn pid_column(rows: Seq<TopProcessDetails>, min: nat) -> nat
    decreases rows.len(),
{
    if rows.len() == 0 {
        min
    } else {
        let w = pid_column(rows.drop_last(), min);
        let d = decimal(rows.last().pid as nat).len();
        if d > w {
            d
        } else {
            w
        }
    }
}

/// The command column: what the tooltip width leaves beside the other
/// columns, and at least `min`.
pub open spec fn command_column(tooltip_width: i32, pid_width: nat, min: nat) -> nat {
    let tw: int = if tooltip_width > 0 {
        tooltip_width as int
    } else {
        0
    };
    let rest: int = tw - (pid_width + PROCESS_SIDE_COLUMNS);
    if rest > min {
        rest as nat
    } else {
        min
    }
}

/// The processes shown: the first rows, as many as the page holds.
pub open spec fn shown_rows(rows: Seq<TopProcessDetails>) -> Seq<TopProcessDetails> {
    if rows.len() <= 15 {
        rows
    } else {
        rows.take(15)
    }
}

/// The process table of the top processes page and its width, or `None`
/// without processes.
pub open spec fn top_process_view(
    rows: Seq<TopProcessDetails>,
    tooltip_width: i32,
    cpu: (i32, i32),
    mem: (i32, i32),
    columns: ProcessColumns,
) -> Option<(Seq<char>, nat)> {
    if rows.len() == 0 {
        None
    } else {
        let shown = shown_rows(rows);
        let pw = pid_column(shown, columns.min_pid as nat);
        let cw = command_column(tooltip_width, pw, columns.min_command as nat);
        let lines = seq![process_header(pw, cw)] + Seq::new(shown.len(), |i: int| process_row(shown[i], pw, cw, cpu, mem));
        Some(("<div class=\"page\">"@ + join_with(lines, "<br>"@) + "</div>"@, (pw + cw + PROCESS_SIDE_COLUMNS) as nat))
    }
}

fn process_line_html(
    fields: (&str, &str, &str, &str),
    classes: (Option<&str>, Option<&str>, Option<&str>, Option<&str>),
    pid_width: usize,
    command_width: usize,
) -> (r: String)
    ensures
        r@ == process_line(
            (fields.0@, fields.1@, fields.2@, fields.3@),
            (opt_str(classes.0), opt_str(classes.1), opt_str(classes.2), opt_str(classes.3)),
            pid_width as nat,
            command_width as nat,
        ),
{
    let mut out = render_field(fields.0, pid_width, classes.0, true);
    push_str(&mut out, "&nbsp;&nbsp;");
    let f1 = render_field(fields.1, command_width, classes.1, false);
    push_str(&mut out, f1.as_str());
    push_str(&mut out, "&nbsp;");
    let f2 = render_field(fields.2, 4, classes.2, true);
    push_str(&mut out, f2.as_str());
    push_str(&mut out, "&nbsp;");
    let f3 = render_field(fields.3, 5, classes.3, true);
    push_str(&mut out, f3.as_str());
    proof {
        reveal_strlit("&nbsp;&nbsp;");
        reveal_strlit("&nbsp;");
    }
    out
}

/// The text of an optional string slice.
pub open spec fn opt_str(o: Option<&str>) -> Option<Seq<char>> {
    match o {
        Some(s) => Some(s@),
        None => None,
    }
}

fn band_class(value: i64, middle: i64, high: i64) -> (r: String)
    ensures
        r@ == "val "@ + threshold_band(value as int, middle as int, high as int),
{
    let mut c = owned("val ");
    push_str(&mut c, css_class_from_thresholds(value, (middle, high)));
    proof {
        reveal_strlit("val ");
    }
    c
}

fn process_row_html(row: &TopProcessDetails, pid_width: usize, command_width: usize, cpu: (i32, i32), mem: (i32, i32)) -> (r: String)
    ensures
        r@ == process_row(*row, pid_width as nat, command_width as nat, cpu, mem),
{
    let mut pid = String::new();
    push_u64(&mut pid, row.pid as u64);
    let command = clip_command(row.command.as_str(), command_width);
    let mut share = String::new();
    push_i64(&mut share, row.cpu_percent as i64);
    let t = row.memory_tenths as u64;
    let mut memory = String::new();
    push_u64(&mut memory, t / 10);
    push_char(&mut memory, '.');
    push_u64(&mut memory, t % 10);
    proof {
        reveal_strlit(".");
        assert(decimal((t % 10) as nat) == seq![digit_char((t % 10) as nat)]);
        assert(memory@ =~= tenths_text(row.memory_tenths as nat));
    }
    let cpu_class = band_class(row.cpu_percent as i64, cpu.0 as i64, cpu.1 as i64);
    let mem_class = band_class(row.memory_tenths as i64, 10 * (mem.0 as i64), 10 * (mem.1 as i64));
    process_line_html(
        (pid.as_str(), command.as_str(), share.as_str(), memory.as_str()),
        (Some("label"), None, Some(cpu_class.as_str()), Some(mem_class.as_str())),
        pid_width,
        command_width,
    )
}

proof fn lemma_pid_column_bound(rows: Seq<TopProcessDetails>, min: nat)
    ensures
        pid_column(rows, min) <= if min > 20 { min } else { 20 },
        pid_column(rows, min) >= min,
    decreases rows.len(),
{
    if rows.len() > 0 {
        lemma_pid_column_bound(rows.drop_last(), min);
        lemma_decimal_short(rows.last().pid as nat);
    }
}

/// The table of the top processes page and its width (see
/// [`top_process_view`]).
pub fn top_process_page(
    rows: &[TopProcessDetails],
    tooltip_width: i32,
    cpu: (i32, i32),
    mem: (i32, i32),
    columns: ProcessColumns,
) -> (r: Option<(String, usize)>)
    ensures
        match top_process_view(rows@, tooltip_width, cpu, mem, columns) {
            Some(v) => r matches Some(x) && x.0@ == v.0 && x.1 == v.1,
            None => r is None,
        },
{
    if rows.len() == 0 {
        return None;
    }
    let limit = top_process_page_rows();
    let count: usize = if rows.len() <= limit { rows.len() } else { limit };
    let ghost shown = shown_rows(rows@);
    assert(shown =~= rows@.take(count as int));
    let mut pid_width: usize = columns.min_pid as usize;
    let mut k: usize = 0;
    while k < count
        invariant
            count <= rows@.len(),
            count == shown.len(),
            shown =~= rows@.take(count as int),
            k <= count,
            pid_width == pid_column(shown.take(k as int), columns.min_pid as nat),
        decreases count - k,
    {
        proof {
            lemma_pid_column_bound(shown.take(k as int), columns.min_pid as nat);
            lemma_decimal_short(rows@[k as int].pid as nat);
            assert(shown.take(k + 1).drop_last() =~= shown.take(k as int));
            assert(shown.take(k + 1).last() == rows@[k as int]);
        }
        let text = usize_to_string(rows[k].pid as usize);
        let d = text.unicode_len();
        if d > pid_width {
            pid_width = d;
        }
        k = k + 1;
    }
    proof {
        assert(shown.take(count as int) =~= shown);
        lemma_pid_column_bound(shown, columns.min_pid as nat);
    }
    let tw: usize = if tooltip_width > 0 { tooltip_width as usize } else { 0 };
    let used = pid_width + PROCESS_SIDE_COLUMNS;
    let command_width: usize = if tw > used && tw - used > columns.min_command as usize {
        tw - used
    } else {
        columns.min_command as usize
    };
    let ghost lines = seq![process_header(pid_width as nat, command_width as nat)] + Seq::new(
        shown.len(),
        |i: int| process_row(shown[i], pid_width as nat, command_width as nat, cpu, mem),
    );
    let mut body = process_line_html(
        ("PID", "COMMAND", "%CPU", "%MEM"),
        (Some("label"), Some("label"), Some("label"), Some("label")),
        pid_width,
        command_width,
    );
    proof {
        reveal_strlit("PID");
        reveal_strlit("COMMAND");
        reveal_strlit("%CPU");
        reveal_strlit("%MEM");
        reveal_strlit("label");
        assert(lines.take(1) =~= seq![lines[0]]);
        assert(body@ =~= join_with(lines.take(1), "<br>"@));
    }
    let mut k: usize = 0;
    while k < count
        invariant
            count <= rows@.len(),
            count == shown.len(),
            shown =~= rows@.take(count as int),
            k <= count,
            lines.len() == count + 1,
            lines == seq![process_header(pid_width as nat, command_width as nat)] + Seq::new(
                shown.len(),
                |i: int| process_row(shown[i], pid_width as nat, command_width as nat, cpu, mem),
            ),
            body@ == join_with(lines.take(k + 1), "<br>"@),
        decreases count - k,
    {
        let line = process_row_html(&rows[k], pid_width, command_width, cpu, mem);
        push_str(&mut body, "<br>");
        push_str(&mut body, line.as_str());
        proof {
            reveal_strlit("<br>");
            assert(shown[k as int] == rows@[k as int]);
            assert(lines[k + 1] == line@);
            assert(lines.take(k + 2).drop_last() =~= lines.take(k + 1));
            assert(lines.take(k + 2).last() == lines[k + 1]);
            assert(body@ =~= join_with(lines.take(k + 2), "<br>"@));
        }
        k = k + 1;
    }
    assert(lines.take(count + 1) =~= lines);
    let mut out = owned("<div class=\"page\">");
    push_str(&mut out, body.as_str());
    push_str(&mut out, "</div>");
    proof {
        reveal_strlit("<div class=\"page\">");
        reveal_strlit("</div>");
    }
    Some((out, pid_width + command_width + PROCESS_SIDE_COLUMNS))
}

/// The top processes page: a no-data note without processes, else the
/// process table, in the tooltip shell with the pager of page `idx` of
/// `total` under it when one is asked for.
pub fn format_top_process(
    rows: Option<&[TopProcessDetails]>,
    tooltip_width: i32,
    cpu: (i32, i32),
    mem: (i32, i32),
    columns: ProcessColumns,
    css: &str,
    header: &str,
    pager_of: Option<(usize, usize)>,
) -> (r: String)
    ensures
        match (match rows {
            Some(x) => top_process_view(x@, tooltip_width, cpu, mem, columns),
            None => None,
        }) {
            Some(v) => r@ == tooltip_shell(v.0, css@, header@, match pager_of {
                Some(p) => pager(p.0 as nat, v.1, p.1 as nat),
                None => Seq::empty(),
            }),
            None => r@ == tooltip_shell("<div class=\"page\">top processes: no data yet</div>"@, css@, header@, Seq::empty()),
        },
{
    let table = match rows {
        Some(x) => top_process_page(x, tooltip_width, cpu, mem, columns),
        None => None,
    };
    match table {
        Some((body, width)) => {
            let footer = match pager_of {
                Some((idx, total)) => pager_html(idx, width, total),
                None => String::new(),
            };
            wrap_tooltip(body.as_str(), css, header, footer.as_str())
        },
        None => {
            proof {
                reveal_strlit("");
            }
            wrap_tooltip("<div class=\"page\">top processes: no data yet</div>", css, header, "")
        },
    }
}

// ── Graphs page ───────────────────────────────────────────────────────────

/// One legend line: an optional coloured dot, the escaped label and the
/// value markup.
#[derive(Debug, Clone, PartialEq, Eq)]
pub struct LegendEntry {
    /// Colour of the dot, when there is one.
    pub color: Option<(u8, u8, u8)>,
    /// Label before the colon.
    pub label: String,
    /// Value markup after it.
    pub value: String,
}

/// A legend line as values.
pub open spec fn legend_line(color: Option<(u8, u8, u8)>, label: Seq<char>, value: Seq<char>) -> Seq<char> {
    (match color {
        Some((r, g, b)) => "<span style=\"color:rgb("@ + decimal(r as nat) + ","@ + decimal(g as nat) + ","@ + decimal(
            b as nat,
        ) + ")\">●</span>&nbsp;"@,
        None => Seq::empty(),
    }) + "<span class=\"label\">"@ + escaped(label) + ":</span>&nbsp;"@ + value
}

/// A legend: its lines, in order, in a page block.
pub open spec fn legend_view(lines: Seq<(Option<(u8, u8, u8)>, Seq<char>, Seq<char>)>) -> Seq<char> {
    "<div class=\"page\">"@ + join_with(
        Seq::new(lines.len(), |i: int| legend_line(lines[i].0, lines[i].1, lines[i].2)),
        "<br>"@,
    ) + "</div>"@
}

/// The values of legend entries.
pub open spec fn legend_values(e: Seq<LegendEntry>) -> Seq<(Option<(u8, u8, u8)>, Seq<char>, Seq<char>)> {
    Seq::new(e.len(), |i: int| (e[i].color, e[i].label@, e[i].value@))
}

fn legend_line_html(entry: &LegendEntry) -> (r: String)
    ensures
        r@ == legend_line(entry.color, entry.label@, entry.value@),
{
    let mut out = String::new();
    if let Some((red, green, blue)) = entry.color {
        push_str(&mut out, "<span style=\"color:rgb(");
        push_u64(&mut out, red as u64);
        push_str(&mut out, ",");
        push_u64(&mut out, green as u64);
        push_str(&mut out, ",");
        push_u64(&mut out, blue as u64);
        push_str(&mut out, ")\">●</span>&nbsp;");
    }
    push_str(&mut out, "<span class=\"label\">");
    let label = escape_html(entry.label.as_str());
    push_str(&mut out, label.as_str());
    push_str(&mut out, ":</span>&nbsp;");
    push_str(&mut out, entry.value.as_str());
    proof {
        reveal_strlit("<span style=\"color:rgb(");
        reveal_strlit(",");
        reveal_strlit(")\">●</span>&nbsp;");
        reveal_strlit("<span class=\"label\">");
        reveal_strlit(":</span>&nbsp;");
        assert(out@ =~= legend_line(entry.color, entry.label@, entry.value@));
    }
    out
}

/// Renders a legend (see [`legend_view`]).
pub fn legend_html(entries: &[LegendEntry]) -> (r: String)
    ensures
        r@ == legend_view(legend_values(entries@)),
{
    let ghost lv = legend_values(entries@);
    let ghost lines = Seq::new(lv.len(), |i: int| legend_line(lv[i].0, lv[i].1, lv[i].2));
    let mut body = String::new();
    let mut k: usize = 0;
    while k < entries.len()
        invariant
            k <= entries@.len(),
            lv == legend_values(entries@),
            lines == Seq::new(lv.len(), |i: int| legend_line(lv[i].0, lv[i].1, lv[i].2)),
            body@ == join_with(lines.take(k as int), "<br>"@),
        decreases entries@.len() - k,
    {
        let line = legend_line_html(&entries[k]);
        if k > 0 {
            push_str(&mut body, "<br>");
        }
        push_str(&mut body, line.as_str());
        proof {
            reveal_strlit("<br>");
            assert(lines[k as int] == line@);
            assert(lines.take(k + 1).drop_last() =~= lines.take(k as int));
            assert(lines.take(k + 1).last() == lines[k as int]);
            if k == 0 {
                assert(lines.take(1) =~= seq![lines[0]]);
            }
            assert(body@ =~= join_with(lines.take(k + 1), "<br>"@));
        }
        k = k + 1;
    }
    assert(lines.take(entries@.len() as int) =~= lines);
    let mut out = owned("<div class=\"page\">");
    push_str(&mut out, body.as_str());
    push_str(&mut out, "</div>");
    proof {
        reveal_strlit("<div class=\"page\">");
        reveal_strlit("</div>");
    }
    out
}

/// Colours of the graph lines, which the legend dots repeat.
#[derive(Debug, Clone, Copy, PartialEq, Eq)]
pub struct GraphPalette {
    /// CPU usage.
    pub cpu: (u8, u8, u8),
    /// Memory usage.
    pub memory: (u8, u8, u8),
    /// GPU usage.
    pub gpu: (u8, u8, u8),
    /// GPU decoder.
    pub decoder: (u8, u8, u8),
    /// Download rate.
    pub download: (u8, u8, u8),
    /// Upload rate.
    pub upload: (u8, u8, u8),
}

/// A GPU graph's current values and thresholds.
#[derive(Debug, Clone, Copy, PartialEq, Eq)]
pub struct GpuGraph {
    /// Current usage.
    pub usage: Option<i32>,
    /// Usage bands.
    pub usage_thresholds: (i32, i32),
    /// Current decoder usage.
    pub decoder: Option<i32>,
    /// Decoder activity threshold.
    pub decoder_threshold: i32,
}

/// What the graphs page shows besides the images.
#[derive(Debug, PartialEq, Eq)]
pub struct GraphsInput {
    /// Configured graph width in pixels.
    pub graph_width: i32,
    /// Configured tooltip width in columns.
    pub tooltip_width: i32,
    /// Current CPU usage and its bands.
    pub cpu: (Option<i32>, (i32, i32)),
    /// Current memory usage and its bands.
    pub memory: (Option<i32>, (i32, i32)),
    /// The NVIDIA GPU, when there is one.
    pub nvidia: Option<GpuGraph>,
    /// The Intel GPU, when there is one.
    pub intel: Option<GpuGraph>,
    /// The download and upload rates as shown, when there is a network
    /// device.
    pub network: Option<(String, String)>,
}

/// The images of the graphs page, in the order of its blocks: CPU, memory,
/// GPU and network (the last two are used only when shown).
pub struct GraphImages<'a> {
    /// CPU usage history.
    pub cpu: &'a [u8],
    /// Memory usage history.
    pub memory: &'a [u8],
    /// GPU usage history with the decoder overlay.
    pub gpu: &'a [u8],
    /// Download history with the upload overlay.
    pub network: &'a [u8],
}

/// The graph width in pixels (negative widths count as zero).
pub open spec fn graph_px(w: i32) -> nat {
    if w > 0 {
        w as nat
    } else {
        0
    }
}

/// The GPU block: the NVIDIA GPU when there is one, else the Intel GPU.
pub open spec fn gpu_block(g: GpuGraph, png: Seq<u8>, width: nat, pal: GraphPalette) -> Seq<char> {
    png_html(png, width) + legend_view(
        seq![
            (Some(pal.gpu), "GPU usage"@, value_band_html(g.usage, Some(g.usage_thresholds))),
            (Some(pal.decoder), "Decoder"@, value_active_html(g.decoder, Some(g.decoder_threshold))),
        ],
    )
}

/// The blocks of the graphs page: CPU, memory, then the GPU when there is
/// one, then the network when there is a device.
pub open spec fn graph_blocks(
    input: GraphsInput,
    cpu_png: Seq<u8>,
    mem_png: Seq<u8>,
    gpu_png: Seq<u8>,
    net_png: Seq<u8>,
    pal: GraphPalette,
) -> Seq<Seq<char>> {
    let w = graph_px(input.graph_width);
    seq![
        png_html(cpu_png, w) + legend_view(seq![(Some(pal.cpu), "CPU usage"@, value_band_html(input.cpu.0, Some(input.cpu.1)))]),
        png_html(mem_png, w) + legend_view(seq![(Some(pal.memory), "Memory usage"@, value_band_html(input.memory.0, Some(input.memory.1)))]),
    ] + (match input.nvidia {
        Some(g) => seq![gpu_block(g, gpu_png, w, pal)],
        None => match input.intel {
            Some(g) => seq![gpu_block(g, gpu_png, w, pal)],
            None => Seq::empty(),
        },
    }) + (match input.network {
        Some((down, up)) => seq![
            png_html(net_png, w) + legend_view(
                seq![
                    (Some(pal.download), "Download"@, "<span class=\"val\">"@ + down@ + "</span>"@),
                    (Some(pal.upload), "Upload"@, "<span class=\"val\">"@ + up@ + "</span>"@),
                ],
            ),
        ],
        None => Seq::empty(),
    })
}

/// The body of the graphs page: a small top gap, then the blocks with a
/// spacer between two of them.
pub open spec fn graphs_body(blocks: Seq<Seq<char>>) -> Seq<char> {
    "<div style=\"font-size:6px\">&nbsp;</div>"@ + join_with(blocks, "<div style=\"font-size:16px\">&nbsp;</div>"@)
}

/// The width the pager is centred on: the tooltip width when set, else a
/// ninth of the graph width.
pub open spec fn graphs_columns(input: GraphsInput) -> nat {
    if input.tooltip_width > 0 {
        input.tooltip_width as nat
    } else {
        graph_px(input.graph_width) / 9
    }
}

fn band_entry(color: (u8, u8, u8), label: &str, current: Option<i32>, thresholds: (i32, i32)) -> (r: LegendEntry)
    ensures
        r.color == Some(color),
        r.label@ == label@,
        r.value@ == value_band_html(current, Some(thresholds)),
{
    LegendEntry { color: Some(color), label: owned(label), value: graph_value_band(current, Some(thresholds)) }
}

fn gpu_block_html(g: &GpuGraph, png: &[u8], width: usize, pal: &GraphPalette) -> (r: String)
    ensures
        r@ == gpu_block(*g, png@, width as nat, *pal),
{
    let mut out = png_img(png, width);
    let entries = vec![
        band_entry(pal.gpu, "GPU usage", g.usage, g.usage_thresholds),
        LegendEntry {
            color: Some(pal.decoder),
            label: owned("Decoder"),
            value: graph_value_active(g.decoder, Some(g.decoder_threshold)),
        },
    ];
    let legend = legend_html(entries.as_slice());
    push_str(&mut out, legend.as_str());
    proof {
        assert(legend_values(entries@) =~= seq![
            (Some(pal.gpu), "GPU usage"@, value_band_html(g.usage, Some(g.usage_thresholds))),
            (Some(pal.decoder), "Decoder"@, value_active_html(g.decoder, Some(g.decoder_threshold))),
        ]);
    }
    out
}

fn join_strings(parts: &Vec<String>, sep: &str) -> (r: String)
    ensures
        r@ == join_with(views(parts@), sep@),
{
    let ghost all = views(parts@);
    let mut out = String::new();
    let mut k: usize = 0;
    while k < parts.len()
        invariant
            k <= parts@.len(),
            all == views(parts@),
            out@ == join_with(all.take(k as int), sep@),
        decreases parts@.len() - k,
    {
        if k > 0 {
            push_str(&mut out, sep);
        }
        push_str(&mut out, parts[k].as_str());
        proof {
            assert(all[k as int] == parts@[k as int]@);
            assert(all.take(k + 1).drop_last() =~= all.take(k as int));
            assert(all.take(k + 1).last() == all[k as int]);
            if k == 0 {
                assert(all.take(1) =~= seq![all[0]]);
            }
            assert(out@ =~= join_with(all.take(k + 1), sep@));
        }
        k = k + 1;
    }
    assert(all.take(parts@.len() as int) =~= all);
    out
}

fn rate_value(text: &str) -> (r: String)
    ensures
        r@ == "<span class=\"val\">"@ + text@ + "</span>"@,
{
    let mut out = owned("<span class=\"val\">");
    push_str(&mut out, text);
    push_str(&mut out, "</span>");
    out
}

/// The graphs page: the CPU and memory graphs, the GPU graph when there is
/// a GPU, the network graph when there is a device, each with its legend,
/// in the tooltip shell with the pager of page `idx` of `total` under it
/// when one is asked for.
pub fn graphs_page(
    input: &GraphsInput,
    images: &GraphImages,
    pal: &GraphPalette,
    css: &str,
    header: &str,
    pager_of: Option<(usize, usize)>,
) -> (r: String)
    ensures
        r@ == tooltip_shell(
            graphs_body(graph_blocks(*input, images.cpu@, images.memory@, images.gpu@, images.network@, *pal)),
            css@,
            header@,
            match pager_of {
                Some(p) => pager(p.0 as nat, graphs_columns(*input), p.1 as nat),
                None => Seq::empty(),
            },
        ),
{
    let ghost blocks = graph_blocks(*input, images.cpu@, images.memory@, images.gpu@, images.network@, *pal);
    let width: usize = if input.graph_width > 0 { input.graph_width as usize } else { 0 };
    let mut parts: Vec<String> = Vec::new();
    let mut cpu = png_img(images.cpu, width);
    let cpu_entries = [band_entry(pal.cpu, "CPU usage", input.cpu.0, input.cpu.1)];
    let cpu_legend = legend_html(&cpu_entries);
    assert(legend_values(cpu_entries@) =~= seq![
        (Some(pal.cpu), "CPU usage"@, value_band_html(input.cpu.0, Some(input.cpu.1))),
    ]);
    push_str(&mut cpu, cpu_legend.as_str());
    parts.push(cpu);
    let mut mem = png_img(images.memory, width);
    let mem_entries = [band_entry(pal.memory, "Memory usage", input.memory.0, input.memory.1)];
    let mem_legend = legend_html(&mem_entries);
    assert(legend_values(mem_entries@) =~= seq![
        (Some(pal.memory), "Memory usage"@, value_band_html(input.memory.0, Some(input.memory.1))),
    ]);
    push_str(&mut mem, mem_legend.as_str());
    parts.push(mem);
    match &input.nvidia {
        Some(g) => parts.push(gpu_block_html(g, images.gpu, width, pal)),
        None => match &input.intel {
            Some(g) => parts.push(gpu_block_html(g, images.gpu, width, pal)),
            None => {},
        },
    }
    match &input.network {
        Some((down, up)) => {
            let mut net = png_img(images.network, width);
            let entries = vec![
                LegendEntry { color: Some(pal.download), label: owned("Download"), value: rate_value(down.as_str()) },
                LegendEntry { color: Some(pal.upload), label: owned("Upload"), value: rate_value(up.as_str()) },
            ];
            let legend = legend_html(entries.as_slice());
            assert(legend_values(entries@) =~= seq![
                (Some(pal.download), "Download"@, "<span class=\"val\">"@ + down@ + "</span>"@),
                (Some(pal.upload), "Upload"@, "<span class=\"val\">"@ + up@ + "</span>"@),
            ]);
            push_str(&mut net, legend.as_str());
            parts.push(net);
        },
        None => {},
    }
    proof {
        reveal_strlit("CPU usage");
        reveal_strlit("Memory usage");
        reveal_strlit("Download");
        reveal_strlit("Upload");
        assert(views(parts@) =~= blocks);
    }
    let mut body = owned("<div style=\"font-size:6px\">&nbsp;</div>");
    let joined = join_strings(&parts, "<div style=\"font-size:16px\">&nbsp;</div>");
    push_str(&mut body, joined.as_str());
    let columns: usize = if input.tooltip_width > 0 { input.tooltip_width as usize } else { width / 9 };
    let footer = match pager_of {
        Some((idx, total)) => pager_html(idx, columns, total),
        None => String::new(),
    };
    wrap_tooltip(body.as_str(), css, header, footer.as_str())
}

} // verus!
