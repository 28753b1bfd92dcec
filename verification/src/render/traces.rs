//! Percentage trace encodings (bar, column, spark, braille) and their
//! standalone and combined rows.

use vstd::prelude::*;

use crate::config::{BarConfig, BrailleConfig, ColumnConfig, SparkConfig};
use crate::render::model::{
    auxiliary_cell, classes_of, css_class_from_thresholds, render_two_pair_row, threshold_band, Align,
    Cell, Ident, Row,
};
use crate::text::{decimal, owned, push_char, push_repeated, push_str, push_u64, repeat, str_eq};

verus! {

broadcast use vstd::string::group_string_axioms;

/// What the trace encodings read from the configuration: the visual knobs of
/// each form, the font size, the spark thresholds, and the string entries of
/// the glyph and label tables.
#[derive(Debug, Clone, PartialEq, Eq)]
pub struct TraceConfig {
    /// Bar form knobs on the panel.
    pub bar_panel: BarConfig,
    /// Bar form knobs on the tooltip.
    pub bar_tooltip: BarConfig,
    /// Column form knobs on the panel.
    pub column_panel: ColumnConfig,
    /// Spark form knobs on the panel.
    pub spark_panel: SparkConfig,
    /// Spark form knobs on the tooltip.
    pub spark_tooltip: SparkConfig,
    /// Braille form knobs on the panel.
    pub braille_panel: BrailleConfig,
    /// Braille form knobs on the tooltip.
    pub braille_tooltip: BrailleConfig,
    /// Alignment divisor for values at the bar's edge.
    pub panel_font_size: i32,
    /// cpu_spark thresholds.
    pub cpu_spark: Vec<i32>,
    /// mem_spark thresholds.
    pub mem_spark: Vec<i32>,
    /// String entries of the glyph table, by key.
    pub icons: Vec<(String, String)>,
    /// String entries of the label table, by key.
    pub labels: Vec<(String, String)>,
}

impl Default for TraceConfig {
    /// The built-in settings, with empty glyph and label tables.
    fn default() -> (r: Self)
        ensures
            r.bar_panel == (BarConfig { width: 22, height: 0 }),
            r.bar_tooltip == (BarConfig { width: 22, height: 0 }),
            r.column_panel == (ColumnConfig { width: 1, height: 0 }),
            r.spark_panel == (SparkConfig { cpu_spark_length: 5, mem_spark_length: 5 }),
            r.spark_tooltip == (SparkConfig { cpu_spark_length: 5, mem_spark_length: 5 }),
            r.braille_panel == (BrailleConfig { cpu_braille_length: 5, mem_braille_length: 5 }),
            r.braille_tooltip == (BrailleConfig { cpu_braille_length: 5, mem_braille_length: 5 }),
            r.panel_font_size == 13,
            r.cpu_spark@ == seq![50i32, 70i32],
            r.mem_spark@ == seq![40i32, 60i32],
            r.icons@.len() == 0,
            r.labels@.len() == 0,
    {
        let cpu_spark = vec![50i32, 70i32];
        let mem_spark = vec![40i32, 60i32];
        assert(cpu_spark@ =~= seq![50i32, 70i32]);
        assert(mem_spark@ =~= seq![40i32, 60i32]);
        TraceConfig {
            bar_panel: BarConfig::default(),
            bar_tooltip: BarConfig::default(),
            column_panel: ColumnConfig::default(),
            spark_panel: SparkConfig::default(),
            spark_tooltip: SparkConfig::default(),
            braille_panel: BrailleConfig::default(),
            braille_tooltip: BrailleConfig::default(),
            panel_font_size: 13,
            cpu_spark,
            mem_spark,
            icons: Vec::new(),
            labels: Vec::new(),
        }
    }
}

/// The cpu/memory trace family shared by bar, spark, and braille forms.
#[derive(Debug, Clone, Copy, PartialEq, Eq, Structural)]
pub enum TraceMetric {
    /// CPU usage / history traces.
    Cpu,
    /// Memory usage / history traces.
    Memory,
}

/// The first two thresholds of a list; one threshold serves as both; none
/// gives `(0, 0)`.
pub open spec fn pair_of(v: Seq<i32>) -> (int, int) {
    if v.len() >= 2 {
        (v[0] as int, v[1] as int)
    } else if v.len() == 1 {
        (v[0] as int, v[0] as int)
    } else {
        (0, 0)
    }
}

/// A configured length, negatives counting as zero.
pub open spec fn length_of(raw: i32) -> nat {
    if raw > 0 {
        raw as nat
    } else {
        0
    }
}

impl TraceMetric {
    /// The usage metric token of the family.
    pub open spec fn usage_token(self) -> Seq<char> {
        match self {
            TraceMetric::Cpu => "cpu_usage"@,
            TraceMetric::Memory => "mem_usage"@,
        }
    }

    /// The gradient class prefix of the family.
    pub open spec fn prefix_token(self) -> Seq<char> {
        match self {
            TraceMetric::Cpu => "cpu"@,
            TraceMetric::Memory => "mem"@,
        }
    }

    /// The spark thresholds of the family.
    pub open spec fn spark_pair(self, cfg: TraceConfig) -> (int, int) {
        match self {
            TraceMetric::Cpu => pair_of(cfg.cpu_spark@),
            TraceMetric::Memory => pair_of(cfg.mem_spark@),
        }
    }

    /// The configured spark length of the family on a surface.
    pub open spec fn spark_len(self, cfg: TraceConfig, tooltip: bool) -> nat {
        let s = if tooltip {
            cfg.spark_tooltip
        } else {
            cfg.spark_panel
        };
        length_of(
            match self {
                TraceMetric::Cpu => s.cpu_spark_length,
                TraceMetric::Memory => s.mem_spark_length,
            },
        )
    }

    /// The configured braille length of the family on a surface.
    pub open spec fn braille_len(self, cfg: TraceConfig, tooltip: bool) -> nat {
        let b = if tooltip {
            cfg.braille_tooltip
        } else {
            cfg.braille_panel
        };
        length_of(
            match self {
                TraceMetric::Cpu => b.cpu_braille_length,
                TraceMetric::Memory => b.mem_braille_length,
            },
        )
    }

    fn usage_metric(self) -> (r: &'static str)
        ensures
            r@ == self.usage_token(),
    {
        match self {
            TraceMetric::Cpu => "cpu_usage",
            TraceMetric::Memory => "mem_usage",
        }
    }

    fn gradient_prefix(self) -> (r: &'static str)
        ensures
            r@ == self.prefix_token(),
    {
        match self {
            TraceMetric::Cpu => "cpu",
            TraceMetric::Memory => "mem",
        }
    }

    fn spark_thresholds(self, cfg: &TraceConfig) -> (r: (i32, i32))
        ensures
            (r.0 as int, r.1 as int) == self.spark_pair(*cfg),
    {
        match self {
            TraceMetric::Cpu => threshold_pair(cfg.cpu_spark.as_slice()),
            TraceMetric::Memory => threshold_pair(cfg.mem_spark.as_slice()),
        }
    }

    /// The spark length of the family on a surface.
    pub fn spark_length(self, cfg: &TraceConfig, tooltip: bool) -> (r: usize)
        ensures
            r == self.spark_len(*cfg, tooltip),
    {
        let s = if tooltip {
            cfg.spark_tooltip
        } else {
            cfg.spark_panel
        };
        let raw = match self {
            TraceMetric::Cpu => s.cpu_spark_length,
            TraceMetric::Memory => s.mem_spark_length,
        };
        if raw > 0 {
            raw as usize
        } else {
            0
        }
    }

    /// The braille length of the family on a surface.
    pub fn braille_length(self, cfg: &TraceConfig, tooltip: bool) -> (r: usize)
        ensures
            r == self.braille_len(*cfg, tooltip),
    {
        let b = if tooltip {
            cfg.braille_tooltip
        } else {
            cfg.braille_panel
        };
        let raw = match self {
            TraceMetric::Cpu => b.cpu_braille_length,
            TraceMetric::Memory => b.mem_braille_length,
        };
        if raw > 0 {
            raw as usize
        } else {
            0
        }
    }
}

fn threshold_pair(values: &[i32]) -> (r: (i32, i32))
    ensures
        (r.0 as int, r.1 as int) == pair_of(values@),
{
    if values.len() >= 2 {
        (values[0], values[1])
    } else if values.len() == 1 {
        (values[0], values[0])
    } else {
        (0, 0)
    }
}

/// The value stored under `key` in a string table (empty when absent).
pub open spec fn lookup(table: Seq<(String, String)>, key: Seq<char>) -> Seq<char>
    decreases table.len(),
{
    if table.len() == 0 {
        Seq::empty()
    } else if table[0].0@ == key {
        table[0].1@
    } else {
        lookup(table.drop_first(), key)
    }
}

fn table_text<'a>(table: &'a Vec<(String, String)>, key: &str) -> (r: &'a str)
    ensures
        r@ == lookup(table@, key@),
{
    let mut k: usize = 0;
    assert(table@.skip(0) =~= table@);
    while k < table.len()
        invariant
            k <= table@.len(),
            lookup(table@, key@) == lookup(table@.skip(k as int), key@),
        decreases table@.len() - k,
    {
        assert(table@.skip(k as int)[0] == table@[k as int]);
        assert(table@.skip(k as int).drop_first() =~= table@.skip(k + 1));
        if str_eq(table[k].0.as_str(), key) {
            return table[k].1.as_str();
        }
        k = k + 1;
    }
    proof {
        reveal_strlit("");
    }
    ""
}

/// The inline font size of a trace (none for a height of zero or less).
pub open spec fn style_of(height: int) -> Seq<char> {
    if height > 0 {
        " style=\"font-size:"@ + decimal(height as nat) + "px\""@
    } else {
        Seq::empty()
    }
}

fn push_font_size_style(out: &mut String, height: i32)
    ensures
        final(out)@ == old(out)@ + style_of(height as int),
{
    if height > 0 {
        push_str(out, " style=\"font-size:");
        push_u64(out, height as u64);
        push_str(out, "px\"");
    } else {
        assert(style_of(height as int) =~= Seq::<char>::empty());
        assert(out@ =~= old(out)@ + style_of(height as int));
    }
}

/// The block character of a level of eight (`▁` to `█`); larger levels
/// clamp to the full block.
pub open spec fn ramp(index: int) -> char {
    if index <= 0 {
        '▁'
    } else if index == 1 {
        '▂'
    } else if index == 2 {
        '▃'
    } else if index == 3 {
        '▄'
    } else if index == 4 {
        '▅'
    } else if index == 5 {
        '▆'
    } else if index == 6 {
        '▇'
    } else {
        '█'
    }
}

fn block_ramp_at(index: usize) -> (r: char)
    ensures
        r == ramp(index as int),
{
    if index == 0 {
        '▁'
    } else if index == 1 {
        '▂'
    } else if index == 2 {
        '▃'
    } else if index == 3 {
        '▄'
    } else if index == 4 {
        '▅'
    } else if index == 5 {
        '▆'
    } else if index == 6 {
        '▇'
    } else {
        '█'
    }
}

/// `numerator / denominator` rounded to the nearest integer, ties to even.
pub open spec fn half_even(numerator: int, denominator: int) -> int {
    let q = numerator / denominator;
    let r = numerator % denominator;
    if 2 * r < denominator {
        q
    } else if 2 * r > denominator {
        q + 1
    } else if q % 2 != 0 {
        q + 1
    } else {
        q
    }
}

fn round_half_even(numerator: i64, denominator: i64) -> (r: i64)
    requires
        numerator >= 0,
        denominator > 0,
    ensures
        r == half_even(numerator as int, denominator as int),
{
    let quotient = numerator / denominator;
    let remainder = numerator % denominator;
    assert(0 <= remainder < denominator);
    if remainder < denominator - remainder {
        quotient
    } else {
        assert(quotient < i64::MAX) by (nonlinear_arith)
            requires
                quotient == numerator / denominator,
                remainder == numerator % denominator,
                remainder >= denominator - remainder,
                0 <= remainder < denominator,
                numerator >= 0,
                numerator <= i64::MAX,
        {
            assert(denominator >= 2);
            assert(numerator == quotient * denominator + remainder);
        }
        if remainder > denominator - remainder {
            quotient + 1
        } else if quotient % 2 != 0 {
            quotient + 1
        } else {
            quotient
        }
    }
}

/// The monospace footprint of a bar whose glyphs are sized in pixels: its
/// width scaled by height over the font size, rounded half to even, at least
/// one; none when a knob is zero or less.
pub open spec fn bar_layout(cfg: TraceConfig, tooltip: bool) -> Option<nat> {
    let bar = if tooltip {
        cfg.bar_tooltip
    } else {
        cfg.bar_panel
    };
    if bar.height <= 0 || bar.width <= 0 || cfg.panel_font_size <= 0 {
        None
    } else {
        let scaled = half_even(bar.width * bar.height, cfg.panel_font_size as int);
        Some(
            if scaled < 1 {
                1
            } else {
                scaled as nat
            },
        )
    }
}

/// The layout width of a bar (see [`bar_layout`]), saturating at the
/// machine word.
pub fn bar_layout_width(cfg: &TraceConfig, tooltip: bool) -> (r: Option<usize>)
    ensures
        match bar_layout(*cfg, tooltip) {
            Some(w) => r == Some(
                if w > usize::MAX {
                    usize::MAX
                } else {
                    w as usize
                },
            ),
            None => r is None,
        },
{
    let bar = if tooltip {
        cfg.bar_tooltip
    } else {
        cfg.bar_panel
    };
    if bar.height <= 0 || bar.width <= 0 || cfg.panel_font_size <= 0 {
        return None;
    }
    let w: i64 = bar.width as i64;
    let h: i64 = bar.height as i64;
    assert(w * h <= 0x4000_0000_0000_0000) by (nonlinear_arith)
        requires
            0 < w <= 0x7FFF_FFFF,
            0 < h <= 0x7FFF_FFFF,
    ;
    assert(w * h > 0) by (nonlinear_arith)
        requires
            0 < w,
            0 < h,
    ;
    let product: i64 = w * h;
    let scaled = round_half_even(product, cfg.panel_font_size as i64);
    if scaled < 1 {
        Some(1)
    } else if scaled as u64 > usize::MAX as u64 {
        Some(usize::MAX)
    } else {
        Some(scaled as usize)
    }
}

/// The braille fill level of a sample: quarters, rounded up, at least one.
pub open spec fn braille_level_of(value: int) -> int {
    if value <= 0 {
        1
    } else {
        let q = (value * 4 + 99) / 100;
        if q > 4 {
            4
        } else {
            q
        }
    }
}

/// The braille fill level of a sample (see [`braille_level_of`]).
pub fn braille_level(value: i32) -> (r: usize)
    ensures
        r as int == braille_level_of(value as int),
        1 <= r <= 4,
{
    if value <= 0 {
        return 1;
    }
    let q: i64 = ((value as i64) * 4 + 99) / 100;
    if q > 4 {
        4
    } else {
        q as usize
    }
}

/// Dots of the left column filled bottom-up to a level.
pub open spec fn left_dots(level: int) -> nat {
    if level <= 1 {
        0x40
    } else if level == 2 {
        0x44
    } else if level == 3 {
        0x46
    } else {
        0x47
    }
}

/// Dots of the right column filled bottom-up to a level.
pub open spec fn right_dots(level: int) -> nat {
    if level <= 1 {
        0x80
    } else if level == 2 {
        0xA0
    } else if level == 3 {
        0xB0
    } else {
        0xB8
    }
}

/// The code point of the braille cell showing two samples side by side.
pub open spec fn braille_code(left: Option<i32>, right: Option<i32>) -> nat {
    0x2800 + match left {
        Some(v) => left_dots(braille_level_of(v as int)),
        None => 0,
    } + match right {
        Some(v) => right_dots(braille_level_of(v as int)),
        None => 0,
    }
}

/// `char::from_u32`.
///
/// Trusted: std documents that `char::from_u32` returns the `char` whose
/// value is `v` when `v` is a Unicode scalar value (at most `0x10FFFF` and
/// not a surrogate in `0xD800..=0xDFFF`), and `None` otherwise.
#[verifier::external_body]
fn char_from_u32(v: u32) -> (r: Option<char>)
    ensures
        match r {
            Some(c) => c as nat == v as nat && crate::render::width::scalar_value(v as nat),
            None => !crate::render::width::scalar_value(v as nat),
        },
{
    char::from_u32(v)
}

/// The braille cell showing two samples (see [`braille_code`]).
pub fn braille_char(left: Option<i32>, right: Option<i32>) -> (r: char)
    ensures
        r as nat == braille_code(left, right),
{
    let mut code: u32 = 0x2800;
    if let Some(value) = left {
        let level = braille_level(value);
        code = code + if level == 1 {
            0x40
        } else if level == 2 {
            0x44
        } else if level == 3 {
            0x46
        } else {
            0x47
        };
    }
    if let Some(value) = right {
        let level = braille_level(value);
        code = code + if level == 1 {
            0x80
        } else if level == 2 {
            0xA0
        } else if level == 3 {
            0xB0
        } else {
            0xB8
        };
    }
    match char_from_u32(code) {
        Some(c) => c,
        None => '\u{2800}',
    }
}


// ── The encodings ──────────────────────────────────────────────────────────

/// The last `n` samples of a history (all of it when shorter).
pub open spec fn tail_of(h: Seq<i32>, n: nat) -> Seq<i32> {
    if h.len() > n {
        h.skip(h.len() - n)
    } else {
        h
    }
}

/// Cells of a bar `width` wide filled for `value` percent.
pub open spec fn filled_of(value: int, width: int) -> int {
    if value * width <= 0 {
        0
    } else if (value * width) / 100 > width {
        width
    } else {
        (value * width) / 100
    }
}

/// The eighth-block level of a percentage, from 0 to 7.
pub open spec fn grade_of(value: int) -> int {
    if value * 8 <= 0 {
        0
    } else if (value * 8) / 100 > 7 {
        7
    } else {
        (value * 8) / 100
    }
}

fn grade(value: i32) -> (r: usize)
    ensures
        r as int == grade_of(value as int),
        r <= 7,
{
    let scaled: i64 = (value as i64) * 8;
    if scaled <= 0 {
        0
    } else if scaled / 100 > 7 {
        7
    } else {
        (scaled / 100) as usize
    }
}

/// The `:bar` form: a bar of the configured width, its filled part classed
/// by threshold band, its rest empty.
pub open spec fn bar_markup(cfg: TraceConfig, value: Option<i32>, thresholds: (i32, i32), tooltip: bool) -> Seq<char> {
    let bar = if tooltip {
        cfg.bar_tooltip
    } else {
        cfg.bar_panel
    };
    match value {
        None => Seq::empty(),
        Some(v) => if bar.width <= 0 {
            Seq::empty()
        } else {
            let filled = filled_of(v as int, bar.width as int);
            let style = style_of(bar.height as int);
            "<span class=\"bar-"@ + threshold_band(v as int, thresholds.0 as int, thresholds.1 as int) + "\""@
                + style + ">"@ + repeat("█"@, filled as nat) + "</span><span class=\"bar-empty\""@ + style
                + ">"@ + repeat("░"@, (bar.width - filled) as nat) + "</span>"@
        },
    }
}

/// Renders the `:bar` form HTML for one percentage value.
pub fn bar_html(cfg: &TraceConfig, value: Option<i32>, thresholds: (i32, i32), tooltip: bool) -> (r: String)
    ensures
        r@ == bar_markup(*cfg, value, thresholds, tooltip),
{
    let v = match value {
        Some(v) => v,
        None => return String::new(),
    };
    let bar = if tooltip {
        cfg.bar_tooltip
    } else {
        cfg.bar_panel
    };
    if bar.width <= 0 {
        return String::new();
    }
    let w: i64 = bar.width as i64;
    let vv: i64 = v as i64;
    assert(-0x4000_0000_0000_0000 <= vv * w <= 0x4000_0000_0000_0000) by (nonlinear_arith)
        requires
            -0x8000_0000 <= vv <= 0x7FFF_FFFF,
            0 < w <= 0x7FFF_FFFF,
    ;
    let product: i64 = vv * w;
    let filled: i64 = if product <= 0 {
        0
    } else if product / 100 > w {
        w
    } else {
        product / 100
    };
    let class = css_class_from_thresholds(v as i64, (thresholds.0 as i64, thresholds.1 as i64));
    let mut out = String::new();
    push_str(&mut out, "<span class=\"bar-");
    push_str(&mut out, class);
    push_str(&mut out, "\"");
    push_font_size_style(&mut out, bar.height);
    push_str(&mut out, ">");
    push_repeated(&mut out, "█", filled as usize);
    push_str(&mut out, "</span><span class=\"bar-empty\"");
    push_font_size_style(&mut out, bar.height);
    push_str(&mut out, ">");
    push_repeated(&mut out, "░", (w - filled) as usize);
    push_str(&mut out, "</span>");
    out
}

/// The horizontal-panel `:column` form: one eighth-block glyph per column
/// of the configured width (at least one).
pub open spec fn column_markup(cfg: TraceConfig, value: Option<i32>, thresholds: (i32, i32)) -> Seq<char> {
    match value {
        None => Seq::empty(),
        Some(v) => {
            let width: nat = if cfg.column_panel.width > 1 {
                cfg.column_panel.width as nat
            } else {
                1
            };
            "<span class=\"bar-"@ + threshold_band(v as int, thresholds.0 as int, thresholds.1 as int) + "\""@
                + style_of(cfg.column_panel.height as int) + ">"@ + repeat(seq![ramp(grade_of(v as int))], width)
                + "</span>"@
        },
    }
}

fn push_char_times(out: &mut String, c: char, n: usize)
    ensures
        final(out)@ == old(out)@ + repeat(seq![c], n as nat),
{
    let mut k: usize = 0;
    while k < n
        invariant
            k <= n,
            out@ == old(out)@ + repeat(seq![c], k as nat),
        decreases n - k,
    {
        push_char(out, c);
        k = k + 1;
        assert(out@ =~= old(out)@ + repeat(seq![c], k as nat));
    }
}

/// Renders the horizontal-panel `:column` form HTML for one percentage value.
pub fn column_html(cfg: &TraceConfig, value: Option<i32>, thresholds: (i32, i32)) -> (r: String)
    ensures
        r@ == column_markup(*cfg, value, thresholds),
{
    let v = match value {
        Some(v) => v,
        None => return String::new(),
    };
    let class = css_class_from_thresholds(v as i64, (thresholds.0 as i64, thresholds.1 as i64));
    let width: usize = if cfg.column_panel.width > 1 {
        cfg.column_panel.width as usize
    } else {
        1
    };
    let mut out = String::new();
    push_str(&mut out, "<span class=\"bar-");
    push_str(&mut out, class);
    push_str(&mut out, "\"");
    push_font_size_style(&mut out, cfg.column_panel.height);
    push_str(&mut out, ">");
    push_char_times(&mut out, block_ramp_at(grade(v)), width);
    push_str(&mut out, "</span>");
    out
}

/// One sample of the `:spark` form.
pub open spec fn spark_cell(v: i32, pair: (int, int)) -> Seq<char> {
    "<span class=\"bar-"@ + threshold_band(v as int, pair.0, pair.1) + "\">"@ + seq![ramp(grade_of(v as int))]
        + "</span>"@
}

/// The samples of the `:spark` form, in order.
pub open spec fn spark_cells(vs: Seq<i32>, pair: (int, int)) -> Seq<char>
    decreases vs.len(),
{
    if vs.len() == 0 {
        Seq::empty()
    } else {
        spark_cells(vs.drop_last(), pair) + spark_cell(vs.last(), pair)
    }
}

/// The `:spark` form: the last samples of the history as eighth blocks, led
/// by empty blocks for the samples not yet recorded.
pub open spec fn spark_markup(cfg: TraceConfig, history: Option<Seq<i32>>, metric: TraceMetric, tooltip: bool) -> Seq<char> {
    match history {
        None => Seq::empty(),
        Some(h) => {
            let len = metric.spark_len(cfg, tooltip);
            let recent = tail_of(h, len);
            let missing = (len - recent.len()) as nat;
            (if missing > 0 {
                "<span class=\"spark-empty\">"@ + repeat("▁"@, missing) + "</span>"@
            } else {
                Seq::empty()
            }) + spark_cells(recent, metric.spark_pair(cfg))
        },
    }
}

/// The spark configuration of a surface.
pub open spec fn spark_of(cfg: TraceConfig, tooltip: bool) -> SparkConfig {
    if tooltip {
        cfg.spark_tooltip
    } else {
        cfg.spark_panel
    }
}

/// A spark draws exactly its family's length of the surface's spark
/// configuration (negative lengths as zero): with at least that many
/// samples it draws the last that many, the memory trace by
/// `mem_spark_length` and the CPU trace by `cpu_spark_length`; with fewer
/// it draws them all after empty blocks for the missing ones.
pub proof fn lemma_spark_draws_its_length(cfg: TraceConfig, h: Seq<i32>, metric: TraceMetric, tooltip: bool)
    ensures
        ({
            let raw = match metric {
                TraceMetric::Cpu => spark_of(cfg, tooltip).cpu_spark_length,
                TraceMetric::Memory => spark_of(cfg, tooltip).mem_spark_length,
            };
            let n: nat = if raw > 0 { raw as nat } else { 0 };
            &&& h.len() >= n ==> spark_markup(cfg, Some(h), metric, tooltip) == spark_cells(
                h.subrange(h.len() - n, h.len() as int),
                metric.spark_pair(cfg),
            )
            &&& h.len() < n ==> spark_markup(cfg, Some(h), metric, tooltip) == "<span class=\"spark-empty\">"@
                + repeat("▁"@, (n - h.len()) as nat) + "</span>"@ + spark_cells(h, metric.spark_pair(cfg))
        }),
{
    let raw = match metric {
        TraceMetric::Cpu => spark_of(cfg, tooltip).cpu_spark_length,
        TraceMetric::Memory => spark_of(cfg, tooltip).mem_spark_length,
    };
    let n: nat = if raw > 0 { raw as nat } else { 0 };
    assert(metric.spark_len(cfg, tooltip) == n);
    if h.len() > n {
        assert(h.skip(h.len() - n) =~= h.subrange(h.len() - n, h.len() as int));
    } else if h.len() == n {
        assert(h =~= h.subrange(0, h.len() as int));
        assert(Seq::<char>::empty() + spark_cells(h, metric.spark_pair(cfg)) =~= spark_cells(h, metric.spark_pair(cfg)));
    }
}

/// The spark of one family does not depend on the other family's length.
pub proof fn lemma_spark_lengths_independent(cfg: TraceConfig, cpu_t: i32, cpu_p: i32, mem_t: i32, mem_p: i32, h: Option<Seq<i32>>, tooltip: bool)
    ensures
        spark_markup(
            TraceConfig {
                spark_tooltip: SparkConfig { cpu_spark_length: cpu_t, ..cfg.spark_tooltip },
                spark_panel: SparkConfig { cpu_spark_length: cpu_p, ..cfg.spark_panel },
                ..cfg
            },
            h,
            TraceMetric::Memory,
            tooltip,
        ) == spark_markup(cfg, h, TraceMetric::Memory, tooltip),
        spark_markup(
            TraceConfig {
                spark_tooltip: SparkConfig { mem_spark_length: mem_t, ..cfg.spark_tooltip },
                spark_panel: SparkConfig { mem_spark_length: mem_p, ..cfg.spark_panel },
                ..cfg
            },
            h,
            TraceMetric::Cpu,
            tooltip,
        ) == spark_markup(cfg, h, TraceMetric::Cpu, tooltip),
{
}

/// Renders the `:spark` form HTML for a recent history buffer.
pub fn spark_html(cfg: &TraceConfig, history: Option<&[i32]>, metric: TraceMetric, tooltip: bool) -> (r: String)
    ensures
        r@ == spark_markup(*cfg, match history {
            Some(h) => Some(h@),
            None => None,
        }, metric, tooltip),
{
    let h = match history {
        Some(h) => h,
        None => return String::new(),
    };
    let length = metric.spark_length(cfg, tooltip);
    let start: usize = if h.len() > length {
        h.len() - length
    } else {
        0
    };
    let ghost recent = tail_of(h@, length as nat);
    assert(recent =~= h@.skip(start as int));
    let missing: usize = length - (h.len() - start);
    let mut out = String::new();
    if missing > 0 {
        push_str(&mut out, "<span class=\"spark-empty\">");
        push_repeated(&mut out, "▁", missing);
        push_str(&mut out, "</span>");
    }
    let ghost head = out@;
    let thresholds = metric.spark_thresholds(cfg);
    let ghost pair = metric.spark_pair(*cfg);
    let mut k: usize = start;
    while k < h.len()
        invariant
            start <= k <= h@.len(),
            recent == h@.skip(start as int),
            (thresholds.0 as int, thresholds.1 as int) == pair,
            out@ == head + spark_cells(recent.take(k - start), pair),
        decreases h@.len() - k,
    {
        let v = h[k];
        proof {
            let t = recent.take(k - start + 1);
            assert(t.drop_last() =~= recent.take(k - start));
            assert(t.last() == v);
        }
        let class = css_class_from_thresholds(v as i64, (thresholds.0 as i64, thresholds.1 as i64));
        push_str(&mut out, "<span class=\"bar-");
        push_str(&mut out, class);
        push_str(&mut out, "\">");
        push_char(&mut out, block_ramp_at(grade(v)));
        push_str(&mut out, "</span>");
        k = k + 1;
        assert(out@ =~= head + spark_cells(recent.take(k - start), pair));
    }
    assert(recent.take(h@.len() - start) =~= recent);
    out
}

/// The samples shown by the `:braille` form: the last `length`, led by
/// empty slots up to `length` and, when that count is odd, one more.
pub open spec fn braille_slots(h: Seq<i32>, length: nat) -> Seq<Option<i32>> {
    let recent = tail_of(h, length);
    let padded = Seq::new((length - recent.len()) as nat, |i: int| None::<i32>) + Seq::new(
        recent.len(),
        |i: int| Some(recent[i]),
    );
    if padded.len() % 2 != 0 {
        seq![None::<i32>] + padded
    } else {
        padded
    }
}

/// The grade of a braille cell: the higher of its samples' grades.
pub open spec fn pair_grade(left: Option<i32>, right: Option<i32>) -> int {
    match (left, right) {
        (Some(l), Some(r)) => if grade_of(l as int) >= grade_of(r as int) {
            grade_of(l as int)
        } else {
            grade_of(r as int)
        },
        (Some(l), None) => grade_of(l as int),
        (None, Some(r)) => grade_of(r as int),
        (None, None) => 0,
    }
}

/// One braille cell: blank for two empty slots, else the two samples as
/// dot columns in the gradient class of their grade.
pub open spec fn braille_cell(left: Option<i32>, right: Option<i32>, prefix: Seq<char>) -> Seq<char> {
    if left is None && right is None {
        seq!['\u{2800}']
    } else {
        "<span class=\"grad-"@ + prefix + "-"@ + decimal(pair_grade(left, right) as nat) + "\">"@ + seq![
            braille_code(left, right) as char,
        ] + "</span>"@
    }
}

/// The braille cells of the first `n` slot pairs.
pub open spec fn braille_cells(slots: Seq<Option<i32>>, n: nat, prefix: Seq<char>) -> Seq<char>
    decreases n,
{
    if n == 0 {
        Seq::empty()
    } else {
        braille_cells(slots, (n - 1) as nat, prefix) + braille_cell(
            slots[2 * (n - 1)],
            slots[2 * (n - 1) + 1],
            prefix,
        )
    }
}

/// The braille sample count: twice the character count, saturating.
pub open spec fn braille_samples(chars: nat) -> nat {
    if 2 * chars > usize::MAX {
        usize::MAX as nat
    } else {
        2 * chars
    }
}

/// The `:braille` form: two samples per character, over the configured
/// character count or the one given.
pub open spec fn braille_markup(
    cfg: TraceConfig,
    history: Option<Seq<i32>>,
    metric: TraceMetric,
    tooltip: bool,
    chars: Option<usize>,
) -> Seq<char> {
    match history {
        None => Seq::empty(),
        Some(h) => {
            let base = match chars {
                Some(c) => c as nat,
                None => metric.braille_len(cfg, tooltip),
            };
            let slots = braille_slots(h, braille_samples(base));
            braille_cells(slots, slots.len() / 2, metric.prefix_token())
        },
    }
}

fn slots_of(h: &[i32], length: usize) -> (r: Vec<Option<i32>>)
    ensures
        r@ == braille_slots(h@, length as nat),
{
    let start: usize = if h.len() > length {
        h.len() - length
    } else {
        0
    };
    let ghost recent = tail_of(h@, length as nat);
    assert(recent =~= h@.skip(start as int));
    let mut padded: Vec<Option<i32>> = Vec::new();
    let missing: usize = length - (h.len() - start);
    let mut k: usize = 0;
    while k < missing
        invariant
            k <= missing,
            padded@ == Seq::new(k as nat, |i: int| None::<i32>),
        decreases missing - k,
    {
        padded.push(None);
        k = k + 1;
        assert(padded@ =~= Seq::new(k as nat, |i: int| None::<i32>));
    }
    let mut j: usize = start;
    while j < h.len()
        invariant
            start <= j <= h@.len(),
            recent == h@.skip(start as int),
            padded@ == Seq::new(missing as nat, |i: int| None::<i32>) + Seq::new(
                (j - start) as nat,
                |i: int| Some(recent[i]),
            ),
        decreases h@.len() - j,
    {
        padded.push(Some(h[j]));
        j = j + 1;
        assert(padded@ =~= Seq::new(missing as nat, |i: int| None::<i32>) + Seq::new(
            (j - start) as nat,
            |i: int| Some(recent[i]),
        ));
    }
    if padded.len() % 2 != 0 {
        padded.insert(0, None);
    }
    assert(padded@ =~= braille_slots(h@, length as nat));
    padded
}

fn push_braille_cell(out: &mut String, left: Option<i32>, right: Option<i32>, prefix: &str)
    ensures
        final(out)@ == old(out)@ + braille_cell(left, right, prefix@),
{
    if left.is_none() && right.is_none() {
        push_char(out, '\u{2800}');
        return;
    }
    let g: usize = match (left, right) {
        (Some(l), Some(r)) => {
            let gl = grade(l);
            let gr = grade(r);
            if gl >= gr {
                gl
            } else {
                gr
            }
        },
        (Some(l), None) => grade(l),
        (None, Some(r)) => grade(r),
        (None, None) => 0,
    };
    push_str(out, "<span class=\"grad-");
    push_str(out, prefix);
    push_str(out, "-");
    push_u64(out, g as u64);
    push_str(out, "\">");
    let c = braille_char(left, right);
    push_char(out, c);
    push_str(out, "</span>");
}

/// Renders the `:braille` form HTML for a recent history buffer; `chars`
/// overrides the configured character count.
pub fn braille_html(
    cfg: &TraceConfig,
    history: Option<&[i32]>,
    metric: TraceMetric,
    tooltip: bool,
    chars: Option<usize>,
) -> (r: String)
    ensures
        r@ == braille_markup(*cfg, match history {
            Some(h) => Some(h@),
            None => None,
        }, metric, tooltip, chars),
{
    let h = match history {
        Some(h) => h,
        None => return String::new(),
    };
    let base: usize = match chars {
        Some(c) => c,
        None => metric.braille_length(cfg, tooltip),
    };
    let length: usize = if base > usize::MAX / 2 {
        usize::MAX
    } else {
        base * 2
    };
    let padded = slots_of(h, length);
    let ghost slots = braille_slots(h@, braille_samples(base as nat));
    let prefix = metric.gradient_prefix();
    let mut out = String::new();
    let n: usize = padded.len();
    let pairs: usize = n / 2;
    let mut p: usize = 0;
    while p < pairs
        invariant
            p <= pairs,
            n == padded@.len(),
            pairs == n / 2,
            padded@ == slots,
            prefix@ == metric.prefix_token(),
            out@ == braille_cells(slots, p as nat, metric.prefix_token()),
        decreases pairs - p,
    {
        assert(2 * p + 1 < n);
        let i: usize = 2 * p;
        push_braille_cell(&mut out, padded[i], padded[i + 1], prefix);
        p = p + 1;
    }
    out
}

// ── Rows ───────────────────────────────────────────────────────────────────

/// `c` is an auxiliary cell with the given text, identity classes, padding
/// and layout width.
pub open spec fn aux_cell(c: Cell, text: Seq<char>, ident: Seq<char>, pad_left: nat, pad_right: nat, layout: Option<usize>) -> bool {
    &&& c.text@ == text
    &&& c.css_class is Some
    &&& classes_of(c) == "aux "@ + ident
    &&& c.align == Align::Left
    &&& c.pad_left == pad_left
    &&& c.pad_right == pad_right
    &&& c.min_width == 0
    &&& c.layout_width == layout
}

/// A standalone trace: no row for empty markup, else one row of one
/// auxiliary cell.
pub open spec fn standalone_rows(rows: Seq<Row>, html: Seq<char>, ident: Seq<char>, layout: Option<usize>) -> bool {
    if html.len() == 0 {
        rows.len() == 0
    } else {
        rows.len() == 1 && rows[0]@.len() == 1 && aux_cell(rows[0]@[0], html, ident, 0, 0, layout)
    }
}

/// One auxiliary cell holding `html`, or nothing when it is empty.
pub fn standalone(html: &str, ident: &Ident, layout_width: Option<usize>) -> (r: Vec<Row>)
    ensures
        standalone_rows(r@, html@, ident.css_view(), layout_width),
{
    if html.unicode_len() == 0 {
        return Vec::new();
    }
    let cell = auxiliary_cell(html, None, Some(ident), 0, 0, layout_width);
    proof {
        reveal_strlit("aux ");
        reveal_strlit("aux");
        reveal_strlit(" ");
        assert("aux "@ =~= "aux"@ + " "@);
    }
    let row = vec![cell];
    let rows = vec![row];
    rows
}

/// The bar's layout width as the rows carry it.
pub open spec fn bar_layout_usize(cfg: TraceConfig, tooltip: bool) -> Option<usize> {
    match bar_layout(cfg, tooltip) {
        Some(w) => Some(
            if w > usize::MAX {
                usize::MAX
            } else {
                w as usize
            },
        ),
        None => None,
    }
}

/// Builds a standalone one-cell row for the `:bar` form.
pub fn bar_row(cfg: &TraceConfig, value: Option<i32>, thresholds: (i32, i32), tooltip: bool, ident: &Ident) -> (r: Vec<Row>)
    ensures
        standalone_rows(r@, bar_markup(*cfg, value, thresholds, tooltip), ident.css_view(), bar_layout_usize(*cfg, tooltip)),
{
    let html = bar_html(cfg, value, thresholds, tooltip);
    standalone(html.as_str(), ident, bar_layout_width(cfg, tooltip))
}

/// Builds a standalone one-cell row for the `:column` form.
pub fn column_row(cfg: &TraceConfig, value: Option<i32>, thresholds: (i32, i32), ident: &Ident) -> (r: Vec<Row>)
    ensures
        standalone_rows(r@, column_markup(*cfg, value, thresholds), ident.css_view(), None),
{
    let html = column_html(cfg, value, thresholds);
    standalone(html.as_str(), ident, None)
}

/// Builds a standalone one-cell row for the `:spark` form.
pub fn spark_row(cfg: &TraceConfig, history: Option<&[i32]>, metric: TraceMetric, tooltip: bool, ident: &Ident) -> (r: Vec<Row>)
    ensures
        standalone_rows(r@, spark_markup(*cfg, match history {
            Some(h) => Some(h@),
            None => None,
        }, metric, tooltip), ident.css_view(), None),
{
    let html = spark_html(cfg, history, metric, tooltip);
    standalone(html.as_str(), ident, None)
}

/// Builds a standalone one-cell row for the `:braille` form.
pub fn braille_row(cfg: &TraceConfig, history: Option<&[i32]>, metric: TraceMetric, tooltip: bool, ident: &Ident) -> (r: Vec<Row>)
    ensures
        standalone_rows(r@, braille_markup(*cfg, match history {
            Some(h) => Some(h@),
            None => None,
        }, metric, tooltip, None), ident.css_view(), None),
{
    let html = braille_html(cfg, history, metric, tooltip, None);
    standalone(html.as_str(), ident, None)
}


/// `c` is a label cell with the given text and classes.
pub open spec fn label_cell(c: Cell, text: Seq<char>, classes: Seq<char>) -> bool {
    &&& c.text@ == text
    &&& c.css_class is Some
    &&& classes_of(c) == classes
    &&& c.align == Align::Left
    &&& c.pad_left == 0
    &&& c.pad_right == 0
    &&& c.min_width == 0
    &&& c.layout_width is None
}

/// The text of a trace label: the glyph on the panel; on the tooltip the
/// glyph, a space, the word (`text`, or the metric's label when empty), and
/// the label delimiter.
pub open spec fn label_text(cfg: TraceConfig, metric: TraceMetric, tooltip: bool, text: Seq<char>) -> Seq<char> {
    let glyph = lookup(cfg.icons@, metric.usage_token());
    if !tooltip {
        glyph
    } else {
        let word = if text.len() == 0 {
            lookup(cfg.labels@, metric.usage_token())
        } else {
            text
        };
        glyph + " "@ + word + lookup(cfg.labels@, "delimiter"@)
    }
}

/// The classes of a trace label for a form.
pub open spec fn label_classes(metric: TraceMetric, form: Seq<char>) -> Seq<char> {
    "label "@ + crate::render::model::ident_css(metric.usage_token(), Some(form))
}

/// Builds the label cell of a trace (see [`label_text`]).
pub fn trace_label_cell(cfg: &TraceConfig, metric: TraceMetric, form: &str, tooltip: bool, text: &str) -> (r: Cell)
    ensures
        label_cell(r, label_text(*cfg, metric, tooltip, text@), label_classes(metric, form@)),
{
    let ident = Ident::new(metric.usage_metric(), Some(form));
    let mut css_class = owned("label ");
    let css = ident.css();
    push_str(&mut css_class, css.as_str());
    let glyph = table_text(&cfg.icons, metric.usage_metric());
    if !tooltip {
        return Cell::classified(glyph, css_class.as_str());
    }
    let word = if text.unicode_len() == 0 {
        table_text(&cfg.labels, metric.usage_metric())
    } else {
        text
    };
    let delimiter = table_text(&cfg.labels, "delimiter");
    let mut label = owned(glyph);
    push_str(&mut label, " ");
    push_str(&mut label, word);
    push_str(&mut label, delimiter);
    Cell::classified(label.as_str(), css_class.as_str())
}

/// The combined `Live: <bar>  History: <trace>` row: nothing when either
/// part is empty, else the bar's label and cell, then the history's label
/// and cell.
pub open spec fn history_rows(
    rows: Seq<Row>,
    cfg: TraceConfig,
    metric: TraceMetric,
    bar: Seq<char>,
    history: Seq<char>,
    history_form: Seq<char>,
    tooltip: bool,
) -> bool {
    if bar.len() == 0 || history.len() == 0 {
        rows.len() == 0
    } else {
        &&& rows.len() == 1
        &&& rows[0]@.len() == 4
        &&& label_cell(
            rows[0]@[0],
            label_text(cfg, metric, tooltip, lookup(cfg.labels@, metric.usage_token())),
            label_classes(metric, "bar"@),
        )
        &&& aux_cell(
            rows[0]@[1],
            bar,
            crate::render::model::ident_css(metric.usage_token(), Some("bar"@)),
            1,
            2,
            None,
        )
        &&& label_cell(
            rows[0]@[2],
            label_text(cfg, metric, tooltip, lookup(cfg.labels@, "history"@)),
            label_classes(metric, "spark"@),
        )
        &&& aux_cell(
            rows[0]@[3],
            history,
            crate::render::model::ident_css(metric.usage_token(), Some(history_form)),
            2,
            0,
            None,
        )
    }
}

fn bar_history_row(
    cfg: &TraceConfig,
    metric: TraceMetric,
    bar: &str,
    history: &str,
    history_form: &str,
    tooltip: bool,
) -> (r: Vec<Row>)
    ensures
        history_rows(r@, *cfg, metric, bar@, history@, history_form@, tooltip),
{
    if bar.unicode_len() == 0 || history.unicode_len() == 0 {
        return Vec::new();
    }
    let bar_ident = Ident::new(metric.usage_metric(), Some("bar"));
    let history_value_ident = Ident::new(metric.usage_metric(), Some(history_form));
    let live_label = trace_label_cell(cfg, metric, "bar", tooltip, table_text(&cfg.labels, metric.usage_metric()));
    let history_label = trace_label_cell(cfg, metric, "spark", tooltip, table_text(&cfg.labels, "history"));
    let bar_cell = auxiliary_cell(bar, None, Some(&bar_ident), 1, 2, None);
    let history_cell = auxiliary_cell(history, None, Some(&history_value_ident), 2, 0, None);
    proof {
        reveal_strlit("aux ");
        reveal_strlit("aux");
        reveal_strlit(" ");
        assert("aux "@ =~= "aux"@ + " "@);
    }
    let row = render_two_pair_row(live_label, bar_cell, history_label, history_cell);
    vec![row]
}

/// Builds the combined `Live: <bar>  History: <spark>` row.
pub fn bar_spark_row(
    cfg: &TraceConfig,
    metric: TraceMetric,
    value: Option<i32>,
    thresholds: (i32, i32),
    history: Option<&[i32]>,
    tooltip: bool,
) -> (r: Vec<Row>)
    ensures
        history_rows(
            r@,
            *cfg,
            metric,
            bar_markup(*cfg, value, thresholds, tooltip),
            spark_markup(*cfg, match history {
                Some(h) => Some(h@),
                None => None,
            }, metric, tooltip),
            "spark"@,
            tooltip,
        ),
{
    let bar = bar_html(cfg, value, thresholds, tooltip);
    let spark = spark_html(cfg, history, metric, tooltip);
    bar_history_row(cfg, metric, bar.as_str(), spark.as_str(), "spark", tooltip)
}

/// Builds the combined `Live: <bar>  History: <braille>` row.
pub fn bar_braille_row(
    cfg: &TraceConfig,
    metric: TraceMetric,
    value: Option<i32>,
    thresholds: (i32, i32),
    history: Option<&[i32]>,
    tooltip: bool,
) -> (r: Vec<Row>)
    ensures
        history_rows(
            r@,
            *cfg,
            metric,
            bar_markup(*cfg, value, thresholds, tooltip),
            braille_markup(*cfg, match history {
                Some(h) => Some(h@),
                None => None,
            }, metric, tooltip, None),
            "braille"@,
            tooltip,
        ),
{
    let bar = bar_html(cfg, value, thresholds, tooltip);
    let braille = braille_html(cfg, history, metric, tooltip, None);
    bar_history_row(cfg, metric, bar.as_str(), braille.as_str(), "braille", tooltip)
}

} // verus!
