//! Cells, rows, blocks, thresholds, and horizontal-panel serialization.

use vstd::prelude::*;

use crate::render::width::{visible_width, visible_width_of};
use crate::text::{
    decimal, first_word, first_word_of, owned, push_i64, push_repeated, push_str, repeat,
    signed_decimal,
};

verus! {

/// Text shown when a requested reading is unavailable.
pub const EMPTY_VALUE: &'static str = "--";

/// Reserved percentage width in the horizontal panel.
pub const PERCENT_PANEL_WIDTH: usize = 3;

/// Horizontal alignment used by the serializers.
#[derive(Debug, Clone, Copy, PartialEq, Eq, Default, Structural)]
pub enum Align {
    /// Content starts at the left edge.
    #[default]
    Left,
    /// Content is centered in its available region.
    Center,
    /// Content ends at the right edge.
    Right,
}

/// One styled unit of renderable HTML text.
#[derive(Debug, Clone, PartialEq, Eq)]
pub struct Cell {
    /// HTML text rendered inside the cell.
    pub text: String,
    /// Space-separated CSS classes applied to the cell span.
    pub css_class: Option<String>,
    /// Horizontal alignment used for structural padding.
    pub align: Align,
    /// Structural columns reserved before the text.
    pub pad_left: usize,
    /// Structural columns reserved after the text.
    pub pad_right: usize,
    /// Minimum horizontal-panel footprint.
    pub min_width: usize,
    /// Optional monospace footprint replacing the text's visible width.
    pub layout_width: Option<usize>,
}

/// A row of render cells.
pub type Row = Vec<Cell>;

/// `n` non-breaking-space entities.
pub open spec fn nbsp(n: nat) -> Seq<char> {
    repeat("&nbsp;"@, n)
}

/// The classes of a cell as text (empty when it has none).
pub open spec fn classes_of(c: Cell) -> Seq<char> {
    match c.css_class {
        Some(s) => s@,
        None => Seq::empty(),
    }
}

/// A cell's text with its structural padding around it.
pub open spec fn inner_of(c: Cell) -> Seq<char> {
    nbsp(c.pad_left as nat) + c.text@ + nbsp(c.pad_right as nat)
}

impl Cell {
    /// Creates an unstyled, left-aligned cell.
    pub fn new(text: &str) -> (c: Cell)
        ensures
            c.text@ == text@,
            c.css_class is None,
            c.align == Align::Left,
            c.pad_left == 0,
            c.pad_right == 0,
            c.min_width == 0,
            c.layout_width is None,
    {
        Cell {
            text: owned(text),
            css_class: None,
            align: Align::Left,
            pad_left: 0,
            pad_right: 0,
            min_width: 0,
            layout_width: None,
        }
    }

    /// Creates a cell with the given CSS classes.
    pub fn classified(text: &str, css_class: &str) -> (c: Cell)
        ensures
            c.text@ == text@,
            c.css_class matches Some(s) && s@ == css_class@,
            c.align == Align::Left,
            c.pad_left == 0,
            c.pad_right == 0,
            c.min_width == 0,
            c.layout_width is None,
    {
        Cell {
            text: owned(text),
            css_class: Some(owned(css_class)),
            align: Align::Left,
            pad_left: 0,
            pad_right: 0,
            min_width: 0,
            layout_width: None,
        }
    }
}

/// CSS identity on the metric and form axes.
#[derive(Debug, Clone, PartialEq, Eq)]
pub struct Ident {
    metric: String,
    form: Option<String>,
}

/// The `item-* form-*` selector classes of a metric and optional form.
pub open spec fn ident_css(metric: Seq<char>, form: Option<Seq<char>>) -> Seq<char> {
    match form {
        None => "item-"@ + metric,
        Some(f) => "item-"@ + metric + " form-"@ + f,
    }
}

impl Ident {
    /// The metric token of the identity.
    pub closed spec fn metric_view(&self) -> Seq<char> {
        self.metric@
    }

    /// The form token of the identity, if any.
    pub closed spec fn form_view(&self) -> Option<Seq<char>> {
        match self.form {
            Some(f) => Some(f@),
            None => None,
        }
    }

    /// The combined selector classes.
    pub open spec fn css_view(&self) -> Seq<char> {
        ident_css(self.metric_view(), self.form_view())
    }

    /// Creates an identity from a metric CSS token and optional form token.
    pub fn new(metric: &str, form: Option<&str>) -> (r: Ident)
        ensures
            r.metric_view() == metric@,
            r.form_view() == (match form {
                Some(f) => Some(f@),
                None => None::<Seq<char>>,
            }),
    {
        let form = match form {
            Some(f) => Some(owned(f)),
            None => None,
        };
        Ident { metric: owned(metric), form }
    }

    /// Returns the combined `item-* form-*` CSS selector classes.
    pub fn css(&self) -> (r: String)
        ensures
            r@ == self.css_view(),
    {
        let mut out = owned("item-");
        push_str(&mut out, self.metric.as_str());
        match &self.form {
            Some(f) => {
                push_str(&mut out, " form-");
                push_str(&mut out, f.as_str());
            },
            None => {},
        }
        out
    }
}

/// Explicit separator size selected by a TOML separator entry.
#[derive(Debug, Clone, Copy, PartialEq, Eq, Structural)]
pub enum SeparatorSize {
    /// Thin separator rule.
    Small,
    /// Thick separator rule.
    Big,
}

impl SeparatorSize {
    /// The size token used in the rule's class name.
    pub open spec fn token(self) -> Seq<char> {
        match self {
            SeparatorSize::Small => "small"@,
            SeparatorSize::Big => "big"@,
        }
    }

    /// Returns the size token used in the rule's class name.
    pub fn as_str(self) -> (s: &'static str)
        ensures
            s@ == self.token(),
    {
        match self {
            SeparatorSize::Small => "small",
            SeparatorSize::Big => "big",
        }
    }
}

/// An explicit separator between render rows.
#[derive(Debug, Clone, Copy, PartialEq, Eq, Structural)]
pub struct Separator {
    /// Rule size applied before the following block.
    pub size: SeparatorSize,
}

/// A row or explicit separator before block grouping.
#[derive(Debug, Clone, PartialEq, Eq)]
pub enum Entry {
    /// A row of cells.
    Row(Row),
    /// An explicit visual separator.
    Separator(Separator),
}

/// Consecutive rows sharing one structural cell-role shape.
#[derive(Debug, Clone, PartialEq, Eq)]
pub struct Block {
    /// Rows laid out with shared column widths.
    pub rows: Vec<Row>,
    /// Explicit rule rendered before this block, if any.
    pub separator_size: Option<SeparatorSize>,
}

/// Appends `count` non-breaking-space entities.
pub fn push_nbsp(s: &mut String, count: usize)
    ensures
        final(s)@ == old(s)@ + nbsp(count as nat),
{
    push_repeated(s, "&nbsp;", count);
}

/// `count` non-breaking-space entities.
pub fn non_breaking_spaces(count: usize) -> (r: String)
    ensures
        r@ == nbsp(count as nat),
{
    let mut s = String::new();
    push_nbsp(&mut s, count);
    assert(s@ =~= nbsp(count as nat));
    s
}

/// A cell's text wrapped in its structural padding.
pub fn cell_inner(cell: &Cell) -> (r: String)
    ensures
        r@ == inner_of(*cell),
{
    let mut inner = non_breaking_spaces(cell.pad_left);
    push_str(&mut inner, cell.text.as_str());
    push_nbsp(&mut inner, cell.pad_right);
    inner
}

/// The class list of a built cell: its role, then the identity classes, then
/// a non-empty state class.
pub open spec fn built_classes(
    role: Seq<char>,
    state: Option<Seq<char>>,
    ident: Option<Seq<char>>,
) -> Seq<char> {
    let with_ident = match ident {
        Some(i) => role + " "@ + i,
        None => role,
    };
    match state {
        Some(s) => if s.len() > 0 {
            with_ident + " "@ + s
        } else {
            with_ident
        },
        None => with_ident,
    }
}

fn build_classes(role: &str, state_class: Option<&str>, ident: Option<&Ident>) -> (r: String)
    ensures
        r@ == built_classes(
            role@,
            match state_class {
                Some(s) => Some(s@),
                None => None,
            },
            match ident {
                Some(i) => Some(i.css_view()),
                None => None,
            },
        ),
{
    let mut classes = owned(role);
    match ident {
        Some(ident) => {
            push_str(&mut classes, " ");
            let css = ident.css();
            push_str(&mut classes, css.as_str());
        },
        None => {},
    }
    match state_class {
        Some(state) => {
            if state.unicode_len() > 0 {
                push_str(&mut classes, " ");
                push_str(&mut classes, state);
            }
        },
        None => {},
    }
    classes
}

/// Builds a right-aligned value cell with role, identity, and state classes.
pub fn value_cell(text: &str, state_class: Option<&str>, ident: Option<&Ident>, min_width: usize) -> (c: Cell)
    ensures
        c.text@ == text@,
        c.css_class matches Some(s) && s@ == built_classes(
            "val"@,
            match state_class {
                Some(s) => Some(s@),
                None => None,
            },
            match ident {
                Some(i) => Some(i.css_view()),
                None => None,
            },
        ),
        c.align == Align::Right,
        c.pad_left == 0,
        c.pad_right == 0,
        c.min_width == min_width,
        c.layout_width is None,
{
    Cell {
        text: owned(text),
        css_class: Some(build_classes("val", state_class, ident)),
        align: Align::Right,
        pad_left: 0,
        pad_right: 0,
        min_width,
        layout_width: None,
    }
}

/// Builds a left-aligned auxiliary cell used by traces and extra columns.
pub fn auxiliary_cell(
    text: &str,
    state_class: Option<&str>,
    ident: Option<&Ident>,
    pad_left: usize,
    pad_right: usize,
    layout_width: Option<usize>,
) -> (c: Cell)
    ensures
        c.text@ == text@,
        c.css_class matches Some(s) && s@ == built_classes(
            "aux"@,
            match state_class {
                Some(s) => Some(s@),
                None => None,
            },
            match ident {
                Some(i) => Some(i.css_view()),
                None => None,
            },
        ),
        c.align == Align::Left,
        c.pad_left == pad_left,
        c.pad_right == pad_right,
        c.min_width == 0,
        c.layout_width == layout_width,
{
    Cell {
        text: owned(text),
        css_class: Some(build_classes("aux", state_class, ident)),
        align: Align::Left,
        pad_left,
        pad_right,
        min_width: 0,
        layout_width,
    }
}

/// A percentage: the bare number for a full (>= 100) compact panel value,
/// otherwise the number followed by `%`.
pub open spec fn percent_text(value: int, tooltip: bool) -> Seq<char> {
    if value >= 100 && !tooltip {
        signed_decimal(value)
    } else {
        signed_decimal(value) + "%"@
    }
}

/// Formats a percentage using the compact panel and explicit tooltip rules.
pub fn format_percent(value: i64, tooltip: bool) -> (r: String)
    ensures
        r@ == percent_text(value as int, tooltip),
{
    let mut s = String::new();
    push_i64(&mut s, value);
    if !(value >= 100 && !tooltip) {
        push_str(&mut s, "%");
    }
    assert(s@ =~= percent_text(value as int, tooltip));
    s
}

/// The threshold band of a value: `crit` from `high`, `warn` from `middle`,
/// `good` below.
pub open spec fn threshold_band(value: int, middle: int, high: int) -> Seq<char> {
    if value >= high {
        "crit"@
    } else if value >= middle {
        "warn"@
    } else {
        "good"@
    }
}

/// Maps a value onto the `good`, `warn`, or `crit` threshold band.
pub fn css_class_from_thresholds(value: i64, thresholds: (i64, i64)) -> (r: &'static str)
    ensures
        r@ == threshold_band(value as int, thresholds.0 as int, thresholds.1 as int),
{
    let (middle, high) = thresholds;
    if value >= high {
        "crit"
    } else if value >= middle {
        "warn"
    } else {
        "good"
    }
}

/// Returns `active` only when the value is strictly above the threshold.
pub fn css_class_active(value: i64, threshold: i64) -> (r: Option<&'static str>)
    ensures
        value > threshold ==> (r matches Some(s) && s@ == "active"@),
        value <= threshold ==> r is None,
{
    if value > threshold {
        Some("active")
    } else {
        None
    }
}

/// The inverted battery band: `crit` up to `low`, `warn` up to `high`,
/// `good` above.
pub open spec fn battery_band(value: int, low: int, high: int) -> Seq<char> {
    if value <= low {
        "crit"@
    } else if value <= high {
        "warn"@
    } else {
        "good"@
    }
}

/// Maps battery charge onto inverted critical, warning, and good bands.
pub fn css_class_battery(value: i64, low_threshold: i64, high_threshold: i64) -> (r: &'static str)
    ensures
        r@ == battery_band(value as int, low_threshold as int, high_threshold as int),
{
    if value <= low_threshold {
        "crit"
    } else if value <= high_threshold {
        "warn"
    } else {
        "good"
    }
}


/// The structural role of a cell: the first of its classes.
pub open spec fn role_of(c: Cell) -> Seq<char> {
    first_word(classes_of(c))
}

/// The role of every cell of a row, in order.
pub open spec fn shape_of(row: Seq<Cell>) -> Seq<Seq<char>> {
    Seq::new(row.len(), |i: int| role_of(row[i]))
}

/// The structural role of a cell (its first class, or empty).
pub fn cell_role(cell: &Cell) -> (r: String)
    ensures
        r@ == role_of(*cell),
{
    match &cell.css_class {
        Some(classes) => first_word_of(classes.as_str()),
        None => {
            let s = String::new();
            proof {
                assert(first_word(Seq::<char>::empty()) =~= Seq::<char>::empty());
            }
            s
        },
    }
}

fn row_shape(row: &[Cell]) -> (r: Vec<String>)
    ensures
        r@.len() == row@.len(),
        forall|i: int| 0 <= i < row@.len() ==> #[trigger] r@[i]@ == role_of(row@[i]),
{
    let mut out: Vec<String> = Vec::new();
    let mut i: usize = 0;
    while i < row.len()
        invariant
            i <= row@.len(),
            out@.len() == i,
            forall|j: int| 0 <= j < i ==> #[trigger] out@[j]@ == role_of(row@[j]),
        decreases row@.len() - i,
    {
        out.push(cell_role(&row[i]));
        i = i + 1;
    }
    out
}

fn same_shape(a: &Vec<String>, b: &Vec<String>) -> (r: bool)
    ensures
        r == (a@.len() == b@.len() && forall|i: int| 0 <= i < a@.len() ==> #[trigger] a@[i]@ == b@[i]@),
{
    if a.len() != b.len() {
        return false;
    }
    let mut i: usize = 0;
    while i < a.len()
        invariant
            a@.len() == b@.len(),
            i <= a@.len(),
            forall|j: int| 0 <= j < i ==> #[trigger] a@[j]@ == b@[j]@,
        decreases a@.len() - i,
    {
        if !crate::text::str_eq(a[i].as_str(), b[i].as_str()) {
            return false;
        }
        i = i + 1;
    }
    true
}

/// A block as the grouping sees it: its rows and the rule before it.
pub type BlockSpec = (Seq<Row>, Option<SeparatorSize>);

/// The state threaded through the grouping of entries.
pub struct GroupState {
    /// Blocks completed so far.
    pub blocks: Seq<BlockSpec>,
    /// Rows of the block being built.
    pub current: Seq<Row>,
    /// Shape of the rows of the block being built.
    pub shape: Option<Seq<Seq<char>>>,
    /// Rule to put before the next completed block.
    pub next_sep: Option<SeparatorSize>,
}

/// Completes the block being built (if it has rows) and sets the rule for
/// the next one.
pub open spec fn flush(st: GroupState, after: Option<SeparatorSize>) -> GroupState {
    GroupState {
        blocks: if st.current.len() > 0 {
            st.blocks.push((st.current, st.next_sep))
        } else {
            st.blocks
        },
        current: Seq::empty(),
        shape: None,
        next_sep: after,
    }
}

/// One grouping step: a separator completes the block and arms its rule; a
/// row joins the block being built unless its role shape differs.
pub open spec fn group_step(st: GroupState, e: Entry) -> GroupState {
    match e {
        Entry::Separator(sep) => flush(st, Some(sep.size)),
        Entry::Row(r) => {
            let sh = shape_of(r@);
            let st2 = match st.shape {
                Some(cur) => if cur != sh {
                    flush(st, None)
                } else {
                    st
                },
                None => st,
            };
            GroupState { current: st2.current.push(r), shape: Some(sh), ..st2 }
        },
    }
}

/// The grouping state after a sequence of entries.
pub open spec fn group_fold(entries: Seq<Entry>) -> GroupState
    decreases entries.len(),
{
    if entries.len() == 0 {
        GroupState { blocks: Seq::empty(), current: Seq::empty(), shape: None, next_sep: None }
    } else {
        group_step(group_fold(entries.drop_last()), entries.last())
    }
}

/// The blocks of a sequence of entries.
pub open spec fn grouped(entries: Seq<Entry>) -> Seq<BlockSpec> {
    flush(group_fold(entries), None).blocks
}

/// Whether the exec blocks are exactly the given block specs.
pub open spec fn blocks_match(blocks: Seq<Block>, specs: Seq<BlockSpec>) -> bool {
    &&& blocks.len() == specs.len()
    &&& forall|i: int|
        0 <= i < blocks.len() ==> (#[trigger] blocks[i]).rows@ == specs[i].0
            && blocks[i].separator_size == specs[i].1
}

/// Groups consecutive rows by structural role shape and applies explicit
/// separators to the block that follows them.
pub fn group_rows_into_blocks(entries: Vec<Entry>) -> (r: Vec<Block>)
    ensures
        blocks_match(r@, grouped(entries@)),
{
    let ghost all = entries@;
    let total = entries.len();
    assert(all.len() == total);
    let mut entries = entries;
    let mut blocks: Vec<Block> = Vec::new();
    let mut current: Vec<Row> = Vec::new();
    let mut current_shape: Option<Vec<String>> = None;
    let mut next_separator: Option<SeparatorSize> = None;
    let mut k: usize = 0;
    assert(all.take(0) =~= Seq::<Entry>::empty());
    while entries.len() > 0
        invariant
            k <= all.len(),
            all.len() <= usize::MAX,
            entries@ == all.skip(k as int),
            blocks_match(blocks@, group_fold(all.take(k as int)).blocks),
            current@ == group_fold(all.take(k as int)).current,
            next_separator == group_fold(all.take(k as int)).next_sep,
            match current_shape {
                Some(v) => group_fold(all.take(k as int)).shape matches Some(sh) && v@.len()
                    == sh.len() && forall|i: int| 0 <= i < sh.len() ==> #[trigger] v@[i]@ == sh[i],
                None => group_fold(all.take(k as int)).shape is None,
            },
        decreases entries@.len(),
    {
        let ghost st = group_fold(all.take(k as int));
        let e = entries.remove(0);
        assert(e == all[k as int]);
        assert(all.take(k + 1).drop_last() =~= all.take(k as int));
        assert(all.take(k + 1).last() == e);
        match e {
            Entry::Separator(separator) => {
                if current.len() > 0 {
                    let mut rows: Vec<Row> = Vec::new();
                        std::mem::swap(&mut rows, &mut current);
                    blocks.push(Block { rows, separator_size: next_separator });
                }
                current_shape = None;
                next_separator = Some(separator.size);
                proof {
                    let nst = group_fold(all.take(k + 1));
                    assert(nst == flush(st, Some(separator.size)));
                    assert(blocks_match(blocks@, nst.blocks));
                    assert(current@ =~= nst.current);
                }
            },
            Entry::Row(row) => {
                let shape = row_shape(row.as_slice());
                let ghost sh = shape_of(row@);
                assert(shape@.len() == sh.len());
                let differs = match &current_shape {
                    Some(cur) => !same_shape(cur, &shape),
                    None => false,
                };
                proof {
                    match st.shape {
                        Some(cur) => {
                            let v = current_shape->0;
                            if differs {
                                if cur == sh {
                                    assert forall|i: int| 0 <= i < v@.len() implies #[trigger] v@[i]@ == shape@[i]@ by {
                                        assert(v@[i]@ == cur[i]);
                                        assert(shape@[i]@ == sh[i]);
                                    }
                                }
                            } else {
                                assert(cur =~= sh) by {
                                    assert forall|i: int| 0 <= i < cur.len() implies cur[i] == sh[i] by {
                                        assert(v@[i]@ == cur[i]);
                                        assert(shape@[i]@ == sh[i]);
                                    }
                                }
                            }
                        },
                        None => {},
                    }
                }
                if differs {
                    if current.len() > 0 {
                        let mut rows: Vec<Row> = Vec::new();
                        std::mem::swap(&mut rows, &mut current);
                        blocks.push(Block { rows, separator_size: next_separator });
                    }
                    next_separator = None;
                }
                let ghost mid_blocks = blocks@;
                current.push(row);
                current_shape = Some(shape);
                proof {
                    let nst = group_fold(all.take(k + 1));
                    let st2 = match st.shape {
                        Some(cur) => if cur != sh {
                            flush(st, None)
                        } else {
                            st
                        },
                        None => st,
                    };
                    assert(nst == GroupState { current: st2.current.push(row), shape: Some(sh), ..st2 });
                    assert(blocks_match(blocks@, nst.blocks));
                    assert(current@ =~= nst.current);
                }
            },
        }
        k = k + 1;
        assert(entries@ =~= all.skip(k as int));
    }
    assert(all.take(k as int) =~= all);
    let ghost st = group_fold(all);
    if current.len() > 0 {
        let mut rows: Vec<Row> = Vec::new();
                        std::mem::swap(&mut rows, &mut current);
        blocks.push(Block { rows, separator_size: next_separator });
    }
    assert(blocks_match(blocks@, grouped(all)));
    blocks
}


/// Assembles two adjacent label/value pairs.
pub fn render_two_pair_row(label1: Cell, value1: Cell, label2: Cell, value2: Cell) -> (r: Row)
    ensures
        r@ == seq![label1, value1, label2, value2],
{
    let r = vec![label1, value1, label2, value2];
    assert(r@ =~= seq![label1, value1, label2, value2]);
    r
}

/// Assembles a label, auxiliary cell, and right-side value; a non-empty
/// auxiliary cell gets one column of left padding.
pub fn render_three_col_row(label: Cell, extra: Cell, value: Cell) -> (r: Row)
    ensures
        r@.len() == 3,
        r@[0] == label,
        r@[2] == value,
        r@[1] == (if extra.text@.len() > 0 {
            Cell { pad_left: 1, ..extra }
        } else {
            extra
        }),
{
    let mut extra = extra;
    if extra.text.unicode_len() > 0 {
        extra.pad_left = 1;
    }
    let r = vec![label, extra, value];
    r
}

/// The rule that precedes a block with an explicit separator.
pub open spec fn separator_rule(size: SeparatorSize) -> Seq<char> {
    "<div width=\"100%\" class=\"separator-rule-"@ + size.token() + "\">&nbsp;</div>"@
}

/// Returns the rule that precedes a block with an explicit separator.
pub fn separator_rule_html(size: SeparatorSize) -> (r: String)
    ensures
        r@ == separator_rule(size),
{
    let mut s = owned("<div width=\"100%\" class=\"separator-rule-");
    push_str(&mut s, size.as_str());
    push_str(&mut s, "\">&nbsp;</div>");
    s
}

/// Joins `parts` with `sep` between consecutive parts.
pub open spec fn join_with(parts: Seq<Seq<char>>, sep: Seq<char>) -> Seq<char>
    decreases parts.len(),
{
    if parts.len() == 0 {
        Seq::empty()
    } else if parts.len() == 1 {
        parts[0]
    } else {
        join_with(parts.drop_last(), sep) + sep + parts.last()
    }
}

/// The ` class="..."` attribute of a cell (empty without classes).
pub open spec fn class_attr(c: Cell) -> Seq<char> {
    if classes_of(c).len() > 0 {
        " class=\""@ + classes_of(c) + "\""@
    } else {
        Seq::empty()
    }
}

/// Whether a cell's padded text width fits in a machine word.
pub open spec fn inline_fits(c: Cell) -> bool {
    c.pad_left + visible_width_of(c.text@) + c.pad_right <= usize::MAX
}

/// Columns a cell still needs to reach its minimum panel width.
pub open spec fn inline_deficit(c: Cell) -> nat {
    let used = c.pad_left + visible_width_of(c.text@) + c.pad_right;
    if c.min_width > used {
        (c.min_width - used) as nat
    } else {
        0
    }
}

/// The horizontal-panel span of one cell: padded text, then the minimum-width
/// deficit as non-breaking spaces before (right-aligned) or after it.
pub open spec fn inline_span(c: Cell) -> Seq<char> {
    let d = inline_deficit(c);
    let body = if d > 0 && c.align == Align::Right {
        nbsp(d) + inner_of(c)
    } else {
        inner_of(c) + nbsp(d)
    };
    "<span"@ + class_attr(c) + ">"@ + body + "</span>"@
}

/// The gap placed between consecutive horizontal-panel cells.
pub open spec fn inline_gap() -> Seq<char> {
    "<span class=\"gap\">&nbsp;</span>"@
}

/// A horizontal-panel row: every cell's span, separated by single gaps.
pub open spec fn inline_row(row: Seq<Cell>) -> Seq<char> {
    join_with(Seq::new(row.len(), |i: int| inline_span(row[i])), inline_gap())
}

fn push_class_attr(out: &mut String, cell: &Cell)
    ensures
        final(out)@ == old(out)@ + class_attr(*cell),
{
    match &cell.css_class {
        Some(classes) => {
            if classes.as_str().unicode_len() > 0 {
                push_str(out, " class=\"");
                push_str(out, classes.as_str());
                push_str(out, "\"");
            }
        },
        None => {},
    }
}

fn push_inline_span(out: &mut String, cell: &Cell)
    requires
        inline_fits(*cell),
    ensures
        final(out)@ == old(out)@ + inline_span(*cell),
{
    let ghost start = out@;
    push_str(out, "<span");
    push_class_attr(out, cell);
    push_str(out, ">");
    let used = cell.pad_left + visible_width(cell.text.as_str()) + cell.pad_right;
    let deficit: usize = if cell.min_width > used { cell.min_width - used } else { 0 };
    if deficit > 0 && cell.align == Align::Right {
        push_nbsp(out, deficit);
        let inner = cell_inner(cell);
        push_str(out, inner.as_str());
    } else {
        let inner = cell_inner(cell);
        push_str(out, inner.as_str());
        push_nbsp(out, deficit);
    }
    push_str(out, "</span>");
    assert(out@ =~= start + inline_span(*cell));
}

/// Serializes one horizontal-panel row as consecutive spans with explicit
/// non-breaking-space gaps.
pub fn render_row_inline(row: &[Cell]) -> (r: String)
    requires
        forall|i: int| 0 <= i < row@.len() ==> inline_fits(#[trigger] row@[i]),
    ensures
        r@ == inline_row(row@),
{
    let mut out = String::new();
    let ghost spans = Seq::new(row@.len(), |i: int| inline_span(row@[i]));
    let mut i: usize = 0;
    while i < row.len()
        invariant
            i <= row@.len(),
            forall|j: int| 0 <= j < row@.len() ==> inline_fits(#[trigger] row@[j]),
            spans == Seq::new(row@.len(), |j: int| inline_span(row@[j])),
            out@ == join_with(spans.take(i as int), inline_gap()),
        decreases row@.len() - i,
    {
        let ghost before = out@;
        if i > 0 {
            push_str(&mut out, "<span class=\"gap\">&nbsp;</span>");
        }
        push_inline_span(&mut out, &row[i]);
        proof {
            let t = spans.take(i + 1);
            assert(t.drop_last() =~= spans.take(i as int));
            assert(t.last() == inline_span(row@[i as int]));
            if i == 0 {
                assert(join_with(t, inline_gap()) == t[0]);
                assert(out@ =~= join_with(t, inline_gap()));
            } else {
                assert(out@ =~= join_with(t, inline_gap()));
            }
        }
        i = i + 1;
    }
    assert(spans.take(row@.len() as int) =~= spans);
    out
}


/// The rows among a list of entries, in order.
pub open spec fn rows_of(entries: Seq<Entry>) -> Seq<Row>
    decreases entries.len(),
{
    if entries.len() == 0 {
        Seq::empty()
    } else {
        match entries.last() {
            Entry::Row(r) => rows_of(entries.drop_last()).push(r),
            Entry::Separator(_) => rows_of(entries.drop_last()),
        }
    }
}

/// The rows of a list of blocks, block after block.
pub open spec fn flatten_blocks(blocks: Seq<BlockSpec>) -> Seq<Row>
    decreases blocks.len(),
{
    if blocks.len() == 0 {
        Seq::empty()
    } else {
        flatten_blocks(blocks.drop_last()) + blocks.last().0
    }
}

/// Whether a block is non-empty and all its rows share one role shape.
pub open spec fn uniform_block(b: BlockSpec) -> bool {
    &&& b.0.len() > 0
    &&& forall|k: int| 0 <= k < b.0.len() ==> shape_of((#[trigger] b.0[k])@) == shape_of(b.0[0]@)
}

spec fn fold_inv(st: GroupState, entries: Seq<Entry>) -> bool {
    &&& flatten_blocks(st.blocks) + st.current == rows_of(entries)
    &&& forall|i: int| 0 <= i < st.blocks.len() ==> uniform_block(#[trigger] st.blocks[i])
    &&& (st.current.len() > 0 <==> st.shape is Some)
    &&& st.shape matches Some(sh) ==> forall|k: int|
        0 <= k < st.current.len() ==> shape_of((#[trigger] st.current[k])@) == sh
}

proof fn lemma_flush_inv(st: GroupState, entries: Seq<Entry>, after: Option<SeparatorSize>)
    requires
        fold_inv(st, entries),
    ensures
        fold_inv(flush(st, after), entries),
{
    let f = flush(st, after);
    if st.current.len() > 0 {
        let b = (st.current, st.next_sep);
        assert(f.blocks.drop_last() == st.blocks);
        assert(flatten_blocks(f.blocks) == flatten_blocks(st.blocks) + st.current);
        assert(f.current =~= Seq::<Row>::empty());
        assert(flatten_blocks(f.blocks) + f.current =~= flatten_blocks(st.blocks) + st.current);
        assert(uniform_block(b));
        assert forall|i: int| 0 <= i < f.blocks.len() implies uniform_block(#[trigger] f.blocks[i]) by {
            if i < st.blocks.len() {
                assert(f.blocks[i] == st.blocks[i]);
            }
        }
    } else {
        assert(st.current =~= Seq::<Row>::empty());
        assert(flatten_blocks(f.blocks) + f.current =~= flatten_blocks(st.blocks) + st.current);
    }
}

proof fn lemma_fold_inv(entries: Seq<Entry>)
    ensures
        fold_inv(group_fold(entries), entries),
    decreases entries.len(),
{
    if entries.len() == 0 {
        assert(flatten_blocks(Seq::<BlockSpec>::empty()) + Seq::<Row>::empty() =~= rows_of(entries));
    } else {
        let pre = entries.drop_last();
        lemma_fold_inv(pre);
        let st = group_fold(pre);
        match entries.last() {
            Entry::Separator(sep) => {
                lemma_flush_inv(st, pre, Some(sep.size));
            },
            Entry::Row(r) => {
                let sh = shape_of(r@);
                let st2 = match st.shape {
                    Some(cur) => if cur != sh {
                        flush(st, None)
                    } else {
                        st
                    },
                    None => st,
                };
                if st.shape is Some && st.shape->0 != sh {
                    lemma_flush_inv(st, pre, None);
                }
                assert(fold_inv(st2, pre));
                let nst = group_fold(entries);
                assert(nst == GroupState { current: st2.current.push(r), shape: Some(sh), ..st2 });
                assert(flatten_blocks(nst.blocks) + nst.current =~= (flatten_blocks(st2.blocks)
                    + st2.current).push(r));
                assert forall|k: int| 0 <= k < nst.current.len() implies shape_of(
                    (#[trigger] nst.current[k])@,
                ) == sh by {
                    if k < st2.current.len() {
                        assert(nst.current[k] == st2.current[k]);
                    }
                }
            },
        }
    }
}

/// Grouping keeps every row, in order, and nothing else; every block it
/// produces is non-empty, and all rows of a block share one role shape.
pub proof fn lemma_grouping_keeps_rows(entries: Seq<Entry>)
    ensures
        flatten_blocks(grouped(entries)) == rows_of(entries),
        forall|i: int|
            0 <= i < grouped(entries).len() ==> uniform_block(#[trigger] grouped(entries)[i]),
{
    lemma_fold_inv(entries);
    lemma_flush_inv(group_fold(entries), entries, None);
    let f = flush(group_fold(entries), None);
    assert(f.current =~= Seq::<Row>::empty());
    assert(flatten_blocks(f.blocks) + f.current =~= flatten_blocks(f.blocks));
}

/// Two neighbouring blocks are told apart: the second has a rule of its
/// own, or its rows have another role shape than the first's.
pub open spec fn set_apart(a: BlockSpec, b: BlockSpec) -> bool {
    b.1 is Some || shape_of(a.0[0]@) != shape_of(b.0[0]@)
}

spec fn split_inv(st: GroupState) -> bool {
    &&& forall|i: int| 1 <= i < st.blocks.len() ==> set_apart(st.blocks[i - 1], #[trigger] st.blocks[i])
    &&& (st.blocks.len() > 0 && st.current.len() > 0) ==> (st.next_sep is Some || st.shape != Some(
        shape_of(st.blocks.last().0[0]@),
    ))
    &&& (st.blocks.len() > 0 && st.current.len() == 0) ==> st.next_sep is Some
}

proof fn lemma_flush_apart(st: GroupState, entries: Seq<Entry>, after: Option<SeparatorSize>)
    requires
        fold_inv(st, entries),
        split_inv(st),
    ensures
        forall|i: int|
            1 <= i < flush(st, after).blocks.len() ==> set_apart(
                flush(st, after).blocks[i - 1],
                #[trigger] flush(st, after).blocks[i],
            ),
{
    let f = flush(st, after);
    if st.current.len() > 0 {
        assert forall|i: int| 1 <= i < f.blocks.len() implies set_apart(f.blocks[i - 1], #[trigger] f.blocks[i]) by {
            if i < st.blocks.len() {
                assert(f.blocks[i] == st.blocks[i]);
                assert(f.blocks[i - 1] == st.blocks[i - 1]);
            } else {
                assert(f.blocks[i] == (st.current, st.next_sep));
                assert(f.blocks[i - 1] == st.blocks.last());
                assert(shape_of(st.current[0]@) == st.shape->0);
            }
        }
    }
}

proof fn lemma_split_inv(entries: Seq<Entry>)
    ensures
        split_inv(group_fold(entries)),
    decreases entries.len(),
{
    if entries.len() > 0 {
        let pre = entries.drop_last();
        lemma_split_inv(pre);
        lemma_fold_inv(pre);
        let st = group_fold(pre);
        let nst = group_fold(entries);
        match entries.last() {
            Entry::Separator(sep) => {
                lemma_flush_apart(st, pre, Some(sep.size));
            },
            Entry::Row(r) => {
                let sh = shape_of(r@);
                if st.shape is Some && st.shape->0 != sh {
                    lemma_flush_apart(st, pre, None);
                    let f = flush(st, None);
                    assert(f.blocks.last() == (st.current, st.next_sep));
                    assert(shape_of(st.current[0]@) == st.shape->0);
                    assert(nst.blocks == f.blocks);
                } else {
                    assert(nst.blocks == st.blocks);
                }
            },
        }
    }
}

/// Grouping starts a new block only where it must: each block but the
/// first has a rule of its own or rows of another role shape than the
/// block before it.
pub proof fn lemma_grouping_is_maximal(entries: Seq<Entry>)
    ensures
        forall|i: int|
            1 <= i < grouped(entries).len() ==> set_apart(grouped(entries)[i - 1], #[trigger] grouped(entries)[i]),
{
    lemma_fold_inv(entries);
    lemma_split_inv(entries);
    lemma_flush_apart(group_fold(entries), entries, None);
}

} // verus!
