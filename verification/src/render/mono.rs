//! Table-free monospace serializer for tooltips and vertical panels.

use vstd::prelude::*;

use crate::render::model::{
    cell_inner, classes_of, inner_of, nbsp, push_nbsp, role_of, separator_rule,
    separator_rule_html, Align, Block, Cell, Row, SeparatorSize,
};
use crate::render::width::{visible_width, visible_width_of};
use crate::text::{owned, push_str, str_eq};
use vstd::string::StrSliceExecFns;

verus! {

/// The monospace footprint of a cell: its padding plus its layout width (or,
/// without one, the visible width of its text).
pub open spec fn cell_width(c: Cell) -> nat {
    let body: nat = match c.layout_width {
        Some(w) => w as nat,
        None => visible_width_of(c.text@),
    };
    (c.pad_left + body + c.pad_right) as nat
}

/// A gap of `n` columns (nothing for zero).
pub open spec fn gap_html(n: nat) -> Seq<char> {
    if n == 0 {
        Seq::empty()
    } else {
        "<span class=\"gap\">"@ + nbsp(n) + "</span>"@
    }
}

/// A cell's padded text, wrapped in a span carrying its classes if it has any.
pub open spec fn span_html(c: Cell) -> Seq<char> {
    if classes_of(c).len() > 0 {
        "<span class=\""@ + classes_of(c) + "\">"@ + inner_of(c) + "</span>"@
    } else {
        inner_of(c)
    }
}

/// Whether a cell is a title rule (its role is `title-rule`).
pub open spec fn title_rule_cell(c: Cell) -> bool {
    role_of(c) == "title-rule"@
}

/// Whether a row is two label/value pairs.
pub open spec fn two_pair_row(row: Seq<Cell>) -> bool {
    row.len() == 4 && row[1].align == Align::Right && row[3].align == Align::Right
}

/// The largest row length of a block.
pub open spec fn column_count(rows: Seq<Row>) -> nat
    decreases rows.len(),
{
    if rows.len() == 0 {
        0
    } else {
        let rest = column_count(rows.drop_last());
        if rows.last()@.len() > rest {
            rows.last()@.len()
        } else {
            rest
        }
    }
}

/// The width of column `k`: the widest cell of the rows that reach it.
pub open spec fn column_width(rows: Seq<Row>, k: int) -> nat
    decreases rows.len(),
{
    if rows.len() == 0 {
        0
    } else {
        let rest = column_width(rows.drop_last(), k);
        let r = rows.last()@;
        if 0 <= k < r.len() && cell_width(r[k]) > rest {
            cell_width(r[k])
        } else {
            rest
        }
    }
}

/// Every column width of a block.
pub open spec fn widths_of(rows: Seq<Row>) -> Seq<nat> {
    Seq::new(column_count(rows), |k: int| column_width(rows, k))
}

/// Sum of a list of widths.
pub open spec fn total(ws: Seq<nat>) -> nat
    decreases ws.len(),
{
    if ws.len() == 0 {
        0
    } else {
        total(ws.drop_last()) + ws.last()
    }
}

/// The widest right-aligned final cell among the block's rows of two or
/// more cells.
pub open spec fn value_column_width(rows: Seq<Row>) -> nat
    decreases rows.len(),
{
    if rows.len() == 0 {
        0
    } else {
        let rest = value_column_width(rows.drop_last());
        let r = rows.last()@;
        if r.len() >= 2 && r.last().align == Align::Right && cell_width(r.last()) > rest {
            cell_width(r.last())
        } else {
            rest
        }
    }
}

/// Cells laid out in columns: each padded to its column's width, the gap
/// before a right-aligned cell and after any other.
pub open spec fn columns_html(cells: Seq<Cell>, ws: Seq<nat>) -> Seq<char>
    decreases cells.len(),
{
    if cells.len() == 0 || ws.len() == 0 {
        Seq::empty()
    } else {
        let n = if cells.len() < ws.len() {
            cells.len()
        } else {
            ws.len()
        };
        let c = cells[n - 1];
        let w = ws[n - 1];
        let gap = if w > cell_width(c) {
            (w - cell_width(c)) as nat
        } else {
            0
        };
        let piece = if c.align == Align::Right {
            gap_html(gap) + span_html(c)
        } else {
            span_html(c) + gap_html(gap)
        };
        columns_html(cells.take(n - 1), ws.take(n - 1)) + piece
    }
}

/// How one row is laid out against the shared width.
pub enum PlanV {
    /// Cells in their columns, left to right.
    Left { natural: nat, html: Seq<char> },
    /// Left columns, a gap to the right edge, then the value.
    RightValue {
        natural: nat,
        left_html: Seq<char>,
        left_width: nat,
        value_html: Seq<char>,
        value_width: nat,
    },
    /// Label, a centered middle cell, then the value at the right edge.
    CenterMiddle {
        natural: nat,
        left_html: Seq<char>,
        left_width: nat,
        middle_html: Seq<char>,
        middle_width: nat,
        value_html: Seq<char>,
        value_width: nat,
        value_column: nat,
    },
    /// Two label/value pairs, one in each half of the width.
    TwoPair { natural: nat, cells: Seq<Cell> },
    /// A full-width title rule.
    TitleRule,
}

/// The natural (unpadded) width of a planned row.
pub open spec fn natural_of(p: PlanV) -> nat {
    match p {
        PlanV::Left { natural, .. } => natural,
        PlanV::RightValue { natural, .. } => natural,
        PlanV::CenterMiddle { natural, .. } => natural,
        PlanV::TwoPair { natural, .. } => natural,
        PlanV::TitleRule => 0,
    }
}

/// The layout plan of one row of a block with column widths `ws` and value
/// column width `vcw`.
pub open spec fn plan_of(row: Seq<Cell>, ws: Seq<nat>, vcw: nat) -> PlanV {
    if row.len() == 3 && row[2].align == Align::Right && row[1].align == Align::Center {
        let lw = total(ws.take(1));
        let mw = cell_width(row[1]);
        let vw = cell_width(row[2]);
        PlanV::CenterMiddle {
            natural: lw + mw + if vw > vcw {
                vw
            } else {
                vcw
            },
            left_html: columns_html(row.take(1), ws.take(1)),
            left_width: lw,
            middle_html: span_html(row[1]),
            middle_width: mw,
            value_html: span_html(row[2]),
            value_width: vw,
            value_column: vcw,
        }
    } else if row.len() == 1 {
        if title_rule_cell(row[0]) {
            PlanV::TitleRule
        } else {
            PlanV::Left { natural: cell_width(row[0]), html: span_html(row[0]) }
        }
    } else if two_pair_row(row) {
        PlanV::TwoPair {
            natural: cell_width(row[0]) + cell_width(row[1]) + cell_width(row[2]) + cell_width(
                row[3],
            ),
            cells: row,
        }
    } else if row.len() > 0 && row.last().align == Align::Right {
        let n = row.len() - 1;
        let lw = total(ws.take(n));
        PlanV::RightValue {
            natural: lw + cell_width(row.last()),
            left_html: columns_html(row.take(n), ws.take(n)),
            left_width: lw,
            value_html: span_html(row.last()),
            value_width: cell_width(row.last()),
        }
    } else {
        PlanV::Left { natural: total(ws), html: columns_html(row, ws) }
    }
}

/// `a - b`, or zero when `b` is larger.
pub open spec fn sat_sub(a: nat, b: nat) -> nat {
    if a > b {
        (a - b) as nat
    } else {
        0
    }
}

/// The title rule line.
pub open spec fn title_rule_line() -> Seq<char> {
    "<div width=\"100%\" class=\"title-rule\">&nbsp;</div>"@
}

/// One laid-out line for the shared width `g`.
pub open spec fn emit_line(p: PlanV, g: nat) -> Seq<char> {
    match p {
        PlanV::TwoPair { cells, .. } => {
            let half = g / 2;
            let first_gap = sat_sub(half, cell_width(cells[0]) + cell_width(cells[1]));
            let second_gap = sat_sub((g - half) as nat, cell_width(cells[2]) + cell_width(cells[3]));
            "<div>"@ + span_html(cells[0]) + gap_html(first_gap) + span_html(cells[1]) + span_html(
                cells[2],
            ) + gap_html(second_gap) + span_html(cells[3]) + "</div>"@
        },
        PlanV::RightValue { left_html, left_width, value_html, value_width, .. } => {
            let middle = sat_sub(g, left_width + value_width);
            "<div>"@ + left_html + gap_html(middle) + value_html + "</div>"@
        },
        PlanV::CenterMiddle {
            left_html,
            left_width,
            middle_html,
            middle_width,
            value_html,
            value_width,
            value_column,
            ..
        } => {
            let region = sat_sub(g, value_column + left_width);
            let before = sat_sub(region, middle_width) / 2;
            let after = sat_sub(g, value_width + left_width + before + middle_width);
            "<div>"@ + left_html + gap_html(before) + middle_html + gap_html(after) + value_html
                + "</div>"@
        },
        PlanV::TitleRule => title_rule_line(),
        PlanV::Left { html, .. } => "<div>"@ + html + "</div>"@,
    }
}

/// The plans of a block's rows.
pub open spec fn block_plans(rows: Seq<Row>) -> Seq<PlanV> {
    Seq::new(rows.len(), |i: int| plan_of(rows[i]@, widths_of(rows), value_column_width(rows)))
}

/// The largest natural width among a list of plans, floored at `w`.
pub open spec fn max_natural(plans: Seq<PlanV>, w: nat) -> nat
    decreases plans.len(),
{
    if plans.len() == 0 {
        w
    } else {
        let rest = max_natural(plans.drop_last(), w);
        if natural_of(plans.last()) > rest {
            natural_of(plans.last())
        } else {
            rest
        }
    }
}

/// The shared width of a list of blocks, floored at `min_width`.
pub open spec fn global_width(blocks: Seq<Block>, min_width: nat) -> nat
    decreases blocks.len(),
{
    if blocks.len() == 0 {
        min_width
    } else {
        max_natural(block_plans(blocks.last().rows@), global_width(blocks.drop_last(), min_width))
    }
}

/// The lines of a list of plans for the shared width `g`.
pub open spec fn emit_lines(plans: Seq<PlanV>, g: nat) -> Seq<char>
    decreases plans.len(),
{
    if plans.len() == 0 {
        Seq::empty()
    } else {
        emit_lines(plans.drop_last(), g) + emit_line(plans.last(), g)
    }
}

/// One block: its explicit rule, if any, then its lines.
pub open spec fn block_html(b: Block, g: nat) -> Seq<char> {
    match b.separator_size {
        Some(size) => separator_rule(size) + emit_lines(block_plans(b.rows@), g),
        None => emit_lines(block_plans(b.rows@), g),
    }
}

/// Every block for the shared width `g`.
pub open spec fn blocks_html(blocks: Seq<Block>, g: nat) -> Seq<char>
    decreases blocks.len(),
{
    if blocks.len() == 0 {
        Seq::empty()
    } else {
        blocks_html(blocks.drop_last(), g) + block_html(blocks.last(), g)
    }
}

/// The monospace serialization of a list of blocks.
pub open spec fn monospace(blocks: Seq<Block>, min_width: nat) -> Seq<char> {
    blocks_html(blocks, global_width(blocks, min_width))
}

/// Whether a block's columns add up to a width the arithmetic can carry.
pub open spec fn block_fits(b: Block) -> bool {
    total(widths_of(b.rows@)) <= usize::MAX / 8
}

/// Whether every block fits.
pub open spec fn blocks_fit(blocks: Seq<Block>) -> bool {
    forall|i: int| 0 <= i < blocks.len() ==> block_fits(#[trigger] blocks[i])
}


/// Widths as naturals.
pub open spec fn nat_widths(v: Seq<usize>) -> Seq<nat> {
    Seq::new(v.len(), |i: int| v[i] as nat)
}

proof fn lemma_cell_le_column(rows: Seq<Row>, r: int, k: int)
    requires
        0 <= r < rows.len(),
        0 <= k < rows[r]@.len(),
    ensures
        cell_width(rows[r]@[k]) <= column_width(rows, k),
    decreases rows.len(),
{
    if r < rows.len() - 1 {
        lemma_cell_le_column(rows.drop_last(), r, k);
    }
}

proof fn lemma_row_le_count(rows: Seq<Row>, r: int)
    requires
        0 <= r < rows.len(),
    ensures
        rows[r]@.len() <= column_count(rows),
    decreases rows.len(),
{
    if r < rows.len() - 1 {
        lemma_row_le_count(rows.drop_last(), r);
    }
}

proof fn lemma_total_take(ws: Seq<nat>, n: int)
    requires
        0 <= n <= ws.len(),
    ensures
        total(ws.take(n)) <= total(ws),
    decreases ws.len(),
{
    if n == ws.len() {
        assert(ws.take(n) =~= ws);
    } else {
        lemma_total_take(ws.drop_last(), n);
        assert(ws.drop_last().take(n) =~= ws.take(n));
    }
}

proof fn lemma_elem_le_total(ws: Seq<nat>, k: int)
    requires
        0 <= k < ws.len(),
    ensures
        ws[k] <= total(ws),
    decreases ws.len(),
{
    if k < ws.len() - 1 {
        lemma_elem_le_total(ws.drop_last(), k);
    }
}

proof fn lemma_total_step(ws: Seq<nat>, n: int)
    requires
        0 <= n < ws.len(),
    ensures
        total(ws.take(n + 1)) == total(ws.take(n)) + ws[n],
{
    assert(ws.take(n + 1).drop_last() =~= ws.take(n));
}

/// A cell of a block is no wider than the block's column total.
proof fn lemma_cell_le_total(rows: Seq<Row>, r: int, k: int)
    requires
        0 <= r < rows.len(),
        0 <= k < rows[r]@.len(),
    ensures
        cell_width(rows[r]@[k]) <= total(widths_of(rows)),
{
    lemma_cell_le_column(rows, r, k);
    lemma_row_le_count(rows, r);
    lemma_elem_le_total(widths_of(rows), k);
}

proof fn lemma_value_column_le_total(rows: Seq<Row>)
    ensures
        value_column_width(rows) <= total(widths_of(rows)),
        value_column_width(rows) == 0 || exists|r: int, k: int|
            0 <= r < rows.len() && 0 <= k < rows[r]@.len() && value_column_width(rows)
                == cell_width(rows[r]@[k]),
    decreases rows.len(),
{
    if rows.len() > 0 {
        let pre = rows.drop_last();
        lemma_value_column_le_total(pre);
        let n = rows.len() - 1;
        let rl = rows.last()@;
        if rl.len() >= 2 && rl.last().align == Align::Right && cell_width(rl.last()) > value_column_width(pre) {
            lemma_cell_le_total(rows, n, rl.len() - 1);
        } else if value_column_width(pre) > 0 {
            let (r, k) = choose|r: int, k: int|
                0 <= r < pre.len() && 0 <= k < pre[r]@.len() && value_column_width(pre)
                    == cell_width(pre[r]@[k]);
            assert(pre[r] == rows[r]);
            lemma_cell_le_total(rows, r, k);
        }
    }
}

fn padding(count: usize) -> (r: String)
    ensures
        r@ == gap_html(count as nat),
{
    if count == 0 {
        String::new()
    } else {
        let mut s = owned("<span class=\"gap\">");
        push_nbsp(&mut s, count);
        push_str(&mut s, "</span>");
        s
    }
}

fn cell_width_exec(cell: &Cell) -> (r: usize)
    requires
        cell_width(*cell) <= usize::MAX,
    ensures
        r == cell_width(*cell),
{
    let body: usize = match cell.layout_width {
        Some(w) => w,
        None => visible_width(cell.text.as_str()),
    };
    cell.pad_left + body + cell.pad_right
}

fn span(cell: &Cell) -> (r: String)
    ensures
        r@ == span_html(*cell),
{
    let inner = cell_inner(cell);
    match &cell.css_class {
        Some(classes) => {
            if classes.as_str().unicode_len() > 0 {
                let mut s = owned("<span class=\"");
                push_str(&mut s, classes.as_str());
                push_str(&mut s, "\">");
                push_str(&mut s, inner.as_str());
                push_str(&mut s, "</span>");
                s
            } else {
                inner
            }
        },
        None => inner,
    }
}

fn is_title_rule(cell: &Cell) -> (r: bool)
    ensures
        r == title_rule_cell(*cell),
{
    let role = crate::render::model::cell_role(cell);
    str_eq(role.as_str(), "title-rule")
}

fn column_widths(rows: &Vec<Row>) -> (r: Vec<usize>)
    requires
        total(widths_of(rows@)) <= usize::MAX / 8,
    ensures
        nat_widths(r@) == widths_of(rows@),
{
    let mut count: usize = 0;
    let mut i: usize = 0;
    while i < rows.len()
        invariant
            i <= rows@.len(),
            count == column_count(rows@.take(i as int)),
        decreases rows@.len() - i,
    {
        assert(rows@.take(i + 1).drop_last() =~= rows@.take(i as int));
        if rows[i].len() > count {
            count = rows[i].len();
        }
        i = i + 1;
    }
    assert(rows@.take(rows@.len() as int) =~= rows@);
    let mut widths: Vec<usize> = Vec::new();
    let mut k: usize = 0;
    while k < count
        invariant
            k <= count,
            count == column_count(rows@),
            total(widths_of(rows@)) <= usize::MAX / 8,
            widths@.len() == k,
            forall|j: int| 0 <= j < k ==> #[trigger] widths@[j] as nat == column_width(rows@, j),
        decreases count - k,
    {
        let mut w: usize = 0;
        let mut r: usize = 0;
        while r < rows.len()
            invariant
                r <= rows@.len(),
                k < column_count(rows@),
                total(widths_of(rows@)) <= usize::MAX / 8,
                w == column_width(rows@.take(r as int), k as int),
            decreases rows@.len() - r,
        {
            assert(rows@.take(r + 1).drop_last() =~= rows@.take(r as int));
            assert(rows@.take(r + 1).last() == rows@[r as int]);
            if k < rows[r].len() {
                proof {
                    lemma_cell_le_total(rows@, r as int, k as int);
                }
                let cw = cell_width_exec(&rows[r][k]);
                if cw > w {
                    w = cw;
                }
            }
            r = r + 1;
        }
        assert(rows@.take(rows@.len() as int) =~= rows@);
        widths.push(w);
        k = k + 1;
    }
    assert(nat_widths(widths@) =~= widths_of(rows@));
    widths
}


fn render_columns(cells: &[Cell], widths: &[usize]) -> (r: (String, usize))
    requires
        total(nat_widths(widths@)) <= usize::MAX / 8,
        forall|i: int|
            0 <= i < cells@.len() && i < widths@.len() ==> cell_width(#[trigger] cells@[i])
                <= widths@[i],
    ensures
        r.0@ == columns_html(cells@, nat_widths(widths@)),
        r.1 == total(nat_widths(widths@)),
{
    let ghost ws = nat_widths(widths@);
    let n: usize = if cells.len() < widths.len() { cells.len() } else { widths.len() };
    let mut html = String::new();
    let mut i: usize = 0;
    assert(cells@.take(0) =~= Seq::<Cell>::empty());
    while i < n
        invariant
            i <= n,
            n <= cells@.len(),
            n <= widths@.len(),
            ws == nat_widths(widths@),
            forall|j: int|
                0 <= j < cells@.len() && j < widths@.len() ==> cell_width(#[trigger] cells@[j])
                    <= widths@[j],
            html@ == columns_html(cells@.take(i as int), ws.take(i as int)),
        decreases n - i,
    {
        let c = &cells[i];
        let cw = cell_width_exec(c);
        let gap = widths[i] - cw;
        let ghost before = html@;
        if c.align == Align::Right {
            let p = padding(gap);
            push_str(&mut html, p.as_str());
            let sp = span(c);
            push_str(&mut html, sp.as_str());
        } else {
            let sp = span(c);
            push_str(&mut html, sp.as_str());
            let p = padding(gap);
            push_str(&mut html, p.as_str());
        }
        proof {
            let ct = cells@.take(i + 1);
            let wt = ws.take(i + 1);
            assert(ct.take(i as int) =~= cells@.take(i as int));
            assert(wt.take(i as int) =~= ws.take(i as int));
            assert(ct[i as int] == cells@[i as int]);
            assert(wt[i as int] == widths@[i as int] as nat);
            assert(html@ =~= columns_html(ct, wt));
        }
        i = i + 1;
    }
    proof {
        let cn = cells@.take(n as int);
        let wn = ws.take(n as int);
        if n > 0 {
            assert(cn.take(n - 1) =~= cells@.take(n - 1));
            assert(wn.take(n - 1) =~= ws.take(n - 1));
            assert(columns_html(cells@, ws) == columns_html(cn, wn));
        } else {
            assert(columns_html(cells@, ws) =~= Seq::<char>::empty());
        }
    }
    let mut sum: usize = 0;
    let mut k: usize = 0;
    assert(ws.take(0) =~= Seq::<nat>::empty());
    while k < widths.len()
        invariant
            k <= widths@.len(),
            ws == nat_widths(widths@),
            total(ws) <= usize::MAX / 8,
            sum == total(ws.take(k as int)),
        decreases widths@.len() - k,
    {
        proof {
            lemma_total_step(ws, k as int);
            lemma_total_take(ws, k + 1);
        }
        sum = sum + widths[k];
        k = k + 1;
    }
    assert(ws.take(widths@.len() as int) =~= ws);
    (html, sum)
}

/// A planned row, ready to be emitted against the shared width.
enum Plan {
    Left { natural: usize, html: String },
    RightValue {
        natural: usize,
        left_html: String,
        left_width: usize,
        value_html: String,
        value_width: usize,
    },
    CenterMiddle {
        natural: usize,
        left_html: String,
        left_width: usize,
        middle_html: String,
        middle_width: usize,
        value_html: String,
        value_width: usize,
        value_column: usize,
    },
    TwoPair { natural: usize, spans: Vec<String>, widths: Vec<usize> },
    TitleRule,
}

/// Whether an exec plan carries exactly the pieces of a spec plan.
spec fn plan_matches(p: Plan, v: PlanV) -> bool {
    match (p, v) {
        (Plan::Left { natural, html }, PlanV::Left { natural: n2, html: h2 }) => natural == n2
            && html@ == h2,
        (
            Plan::RightValue { natural, left_html, left_width, value_html, value_width },
            PlanV::RightValue {
                natural: n2,
                left_html: l2,
                left_width: lw2,
                value_html: v2,
                value_width: vw2,
            },
        ) => natural == n2 && left_html@ == l2 && left_width == lw2 && value_html@ == v2
            && value_width == vw2,
        (
            Plan::CenterMiddle {
                natural,
                left_html,
                left_width,
                middle_html,
                middle_width,
                value_html,
                value_width,
                value_column,
            },
            PlanV::CenterMiddle {
                natural: n2,
                left_html: l2,
                left_width: lw2,
                middle_html: m2,
                middle_width: mw2,
                value_html: v2,
                value_width: vw2,
                value_column: vc2,
            },
        ) => natural == n2 && left_html@ == l2 && left_width == lw2 && middle_html@ == m2
            && middle_width == mw2 && value_html@ == v2 && value_width == vw2 && value_column
            == vc2,
        (Plan::TwoPair { natural, spans, widths }, PlanV::TwoPair { natural: n2, cells }) => {
            &&& natural == n2
            &&& cells.len() == 4
            &&& spans@.len() == 4
            &&& widths@.len() == 4
            &&& forall|i: int|
                0 <= i < 4 ==> #[trigger] spans@[i]@ == span_html(cells[i]) && widths@[i]
                    == cell_width(cells[i])
        },
        (Plan::TitleRule, PlanV::TitleRule) => true,
        _ => false,
    }
}

/// Whether every width a spec plan carries stays within an eighth of the
/// machine word.
spec fn plan_bounded(v: PlanV) -> bool {
    let b = usize::MAX / 8;
    match v {
        PlanV::Left { natural, .. } => natural <= 2 * b,
        PlanV::RightValue { natural, left_width, value_width, .. } => natural <= 2 * b
            && left_width <= b && value_width <= b,
        PlanV::CenterMiddle {
            natural,
            left_width,
            middle_width,
            value_width,
            value_column,
            ..
        } => natural <= 2 * b && left_width <= b && middle_width <= b && value_width <= b
            && value_column <= b,
        PlanV::TwoPair { natural, cells } => natural <= 2 * b && cells.len() == 4 && cell_width(
            cells[0],
        ) + cell_width(cells[1]) <= b && cell_width(cells[2]) + cell_width(cells[3]) <= b,
        PlanV::TitleRule => true,
    }
}

fn block_value_column_width(rows: &Vec<Row>) -> (r: usize)
    requires
        total(widths_of(rows@)) <= usize::MAX / 8,
    ensures
        r == value_column_width(rows@),
{
    let mut w: usize = 0;
    let mut i: usize = 0;
    while i < rows.len()
        invariant
            i <= rows@.len(),
            total(widths_of(rows@)) <= usize::MAX / 8,
            w == value_column_width(rows@.take(i as int)),
        decreases rows@.len() - i,
    {
        assert(rows@.take(i + 1).drop_last() =~= rows@.take(i as int));
        assert(rows@.take(i + 1).last() == rows@[i as int]);
        let n = rows[i].len();
        if n >= 2 && rows[i][n - 1].align == Align::Right {
            proof {
                lemma_cell_le_total(rows@, i as int, n - 1);
            }
            let cw = cell_width_exec(&rows[i][n - 1]);
            if cw > w {
                w = cw;
            }
        }
        i = i + 1;
    }
    assert(rows@.take(rows@.len() as int) =~= rows@);
    w
}

proof fn lemma_total_bound(rows: Seq<Row>)
    ensures
        forall|k: int| 0 <= k < widths_of(rows).len() ==> #[trigger] widths_of(rows)[k] <= total(widths_of(rows)),
{
    assert forall|k: int| 0 <= k < widths_of(rows).len() implies #[trigger] widths_of(rows)[k] <= total(widths_of(rows)) by {
        lemma_elem_le_total(widths_of(rows), k);
    }
}

fn plan_row(rows: &Vec<Row>, idx: usize, widths: &Vec<usize>, vcw: usize) -> (p: Plan)
    requires
        idx < rows@.len(),
        total(widths_of(rows@)) <= usize::MAX / 8,
        nat_widths(widths@) == widths_of(rows@),
        vcw == value_column_width(rows@),
    ensures
        plan_matches(p, plan_of(rows@[idx as int]@, widths_of(rows@), vcw as nat)),
        plan_bounded(plan_of(rows@[idx as int]@, widths_of(rows@), vcw as nat)),
{
    let row = &rows[idx];
    let ghost rv = row@;
    let ghost ws = widths_of(rows@);
    let len = row.len();
    proof {
        lemma_row_le_count(rows@, idx as int);
        lemma_value_column_le_total(rows@);
        lemma_total_bound(rows@);
        assert forall|k: int| 0 <= k < rv.len() implies cell_width(#[trigger] rv[k]) <= ws[k] by {
            lemma_cell_le_column(rows@, idx as int, k);
        }
        assert forall|k: int| 0 <= k < rv.len() implies cell_width(#[trigger] rv[k]) <= total(ws) by {
            lemma_cell_le_total(rows@, idx as int, k);
        }
    }
    if len == 3 && row[2].align == Align::Right && row[1].align == Align::Center {
        let left_cells = &row.as_slice()[0..1];
        let left_ws = &widths.as_slice()[0..1];
        proof {
            assert(left_cells@ =~= rv.take(1));
            assert(nat_widths(left_ws@) =~= ws.take(1));
            lemma_total_take(ws, 1);
            lemma_total_take(ws, 3);
            lemma_total_step(ws, 0);
            lemma_total_step(ws, 1);
            lemma_total_step(ws, 2);
            assert(ws.take(0) =~= Seq::<nat>::empty());
        }
        let (left_html, left_width) = render_columns(left_cells, left_ws);
        let middle_width = cell_width_exec(&row[1]);
        let value_width = cell_width_exec(&row[2]);
        let top = if value_width > vcw { value_width } else { vcw };
        return Plan::CenterMiddle {
            natural: left_width + middle_width + top,
            left_html,
            left_width,
            middle_html: span(&row[1]),
            middle_width,
            value_html: span(&row[2]),
            value_width,
            value_column: vcw,
        };
    }
    if len == 1 {
        if is_title_rule(&row[0]) {
            return Plan::TitleRule;
        }
        return Plan::Left { natural: cell_width_exec(&row[0]), html: span(&row[0]) };
    }
    if len == 4 && row[1].align == Align::Right && row[3].align == Align::Right {
        let w0 = cell_width_exec(&row[0]);
        let w1 = cell_width_exec(&row[1]);
        let w2 = cell_width_exec(&row[2]);
        let w3 = cell_width_exec(&row[3]);
        proof {
            lemma_total_take(ws, 2);
            lemma_total_step(ws, 0);
            lemma_total_step(ws, 1);
            lemma_total_step(ws, 2);
            lemma_total_step(ws, 3);
            lemma_total_take(ws, 4);
            assert(ws.take(0) =~= Seq::<nat>::empty());
        }
        let spans = vec![span(&row[0]), span(&row[1]), span(&row[2]), span(&row[3])];
        let ws4 = vec![w0, w1, w2, w3];
        return Plan::TwoPair { natural: w0 + w1 + w2 + w3, spans, widths: ws4 };
    }
    if len > 0 && row[len - 1].align == Align::Right {
        let n = len - 1;
        let left_cells = &row.as_slice()[0..n];
        let left_ws = &widths.as_slice()[0..n];
        proof {
            assert(left_cells@ =~= rv.take(n as int));
            assert(nat_widths(left_ws@) =~= ws.take(n as int));
            lemma_total_take(ws, n as int);
        }
        let (left_html, left_width) = render_columns(left_cells, left_ws);
        let value_width = cell_width_exec(&row[n]);
        return Plan::RightValue {
            natural: left_width + value_width,
            left_html,
            left_width,
            value_html: span(&row[n]),
            value_width,
        };
    }
    let all_cells = row.as_slice();
    let all_ws = widths.as_slice();
    assert(nat_widths(all_ws@) == ws);
    let (html, natural) = render_columns(all_cells, all_ws);
    Plan::Left { natural, html }
}


fn emit(plan: &Plan, g: usize, Ghost(v): Ghost<PlanV>) -> (r: String)
    requires
        plan_matches(*plan, v),
        plan_bounded(v),
    ensures
        r@ == emit_line(v, g as nat),
{
    match plan {
        Plan::TwoPair { spans, widths, .. } => {
            proof {
                assert(spans@[0]@ == span_html(v->cells[0]));
                assert(spans@[1]@ == span_html(v->cells[1]));
                assert(spans@[2]@ == span_html(v->cells[2]));
                assert(spans@[3]@ == span_html(v->cells[3]));
            }
            let half = g / 2;
            let a = widths[0] + widths[1];
            let first_gap: usize = if half > a { half - a } else { 0 };
            let b = widths[2] + widths[3];
            let rest = g - half;
            let second_gap: usize = if rest > b { rest - b } else { 0 };
            let mut out = owned("<div>");
            push_str(&mut out, spans[0].as_str());
            let p1 = padding(first_gap);
            push_str(&mut out, p1.as_str());
            push_str(&mut out, spans[1].as_str());
            push_str(&mut out, spans[2].as_str());
            let p2 = padding(second_gap);
            push_str(&mut out, p2.as_str());
            push_str(&mut out, spans[3].as_str());
            push_str(&mut out, "</div>");
            proof {
                assert(spans@[0]@ == span_html(v->cells[0]));
                assert(spans@[1]@ == span_html(v->cells[1]));
                assert(spans@[2]@ == span_html(v->cells[2]));
                assert(spans@[3]@ == span_html(v->cells[3]));
                assert(widths@[0] == cell_width(v->cells[0]));
                assert(widths@[1] == cell_width(v->cells[1]));
                assert(widths@[2] == cell_width(v->cells[2]));
                assert(widths@[3] == cell_width(v->cells[3]));
                assert(out@ =~= emit_line(v, g as nat));
            }
            out
        },
        Plan::RightValue { left_html, left_width, value_html, value_width, .. } => {
            let used = *left_width + *value_width;
            let middle: usize = if g > used { g - used } else { 0 };
            let mut out = owned("<div>");
            push_str(&mut out, left_html.as_str());
            let p = padding(middle);
            push_str(&mut out, p.as_str());
            push_str(&mut out, value_html.as_str());
            push_str(&mut out, "</div>");
            assert(out@ =~= emit_line(v, g as nat));
            out
        },
        Plan::CenterMiddle {
            left_html,
            left_width,
            middle_html,
            middle_width,
            value_html,
            value_width,
            value_column,
            ..
        } => {
            let lead = *value_column + *left_width;
            let region: usize = if g > lead { g - lead } else { 0 };
            let spare: usize = if region > *middle_width { region - *middle_width } else { 0 };
            let before = spare / 2;
            let used = *value_width + *left_width + before + *middle_width;
            let after: usize = if g > used { g - used } else { 0 };
            let mut out = owned("<div>");
            push_str(&mut out, left_html.as_str());
            let p1 = padding(before);
            push_str(&mut out, p1.as_str());
            push_str(&mut out, middle_html.as_str());
            let p2 = padding(after);
            push_str(&mut out, p2.as_str());
            push_str(&mut out, value_html.as_str());
            push_str(&mut out, "</div>");
            assert(out@ =~= emit_line(v, g as nat));
            out
        },
        Plan::TitleRule => owned("<div width=\"100%\" class=\"title-rule\">&nbsp;</div>"),
        Plan::Left { html, .. } => {
            let mut out = owned("<div>");
            push_str(&mut out, html.as_str());
            push_str(&mut out, "</div>");
            assert(out@ =~= emit_line(v, g as nat));
            out
        },
    }
}

fn plan_natural(plan: &Plan, Ghost(v): Ghost<PlanV>) -> (r: usize)
    requires
        plan_matches(*plan, v),
    ensures
        r == natural_of(v),
{
    match plan {
        Plan::Left { natural, .. } => *natural,
        Plan::RightValue { natural, .. } => *natural,
        Plan::CenterMiddle { natural, .. } => *natural,
        Plan::TwoPair { natural, .. } => *natural,
        Plan::TitleRule => 0,
    }
}

fn block_max_natural(rows: &Vec<Row>, start: usize) -> (r: usize)
    requires
        total(widths_of(rows@)) <= usize::MAX / 8,
    ensures
        r == max_natural(block_plans(rows@), start as nat),
{
    let widths = column_widths(rows);
    let vcw = block_value_column_width(rows);
    let ghost plans = block_plans(rows@);
    let mut g = start;
    let mut j: usize = 0;
    assert(plans.take(0) =~= Seq::<PlanV>::empty());
    while j < rows.len()
        invariant
            j <= rows@.len(),
            total(widths_of(rows@)) <= usize::MAX / 8,
            nat_widths(widths@) == widths_of(rows@),
            vcw == value_column_width(rows@),
            plans == block_plans(rows@),
            g == max_natural(plans.take(j as int), start as nat),
        decreases rows@.len() - j,
    {
        let plan = plan_row(rows, j, &widths, vcw);
        let nat_w = plan_natural(&plan, Ghost(plans[j as int]));
        assert(plans.take(j + 1).drop_last() =~= plans.take(j as int));
        if nat_w > g {
            g = nat_w;
        }
        j = j + 1;
    }
    assert(plans.take(rows@.len() as int) =~= plans);
    g
}

fn emit_block(rows: &Vec<Row>, g: usize) -> (r: String)
    requires
        total(widths_of(rows@)) <= usize::MAX / 8,
    ensures
        r@ == emit_lines(block_plans(rows@), g as nat),
{
    let widths = column_widths(rows);
    let vcw = block_value_column_width(rows);
    let ghost plans = block_plans(rows@);
    let mut out = String::new();
    let mut j: usize = 0;
    assert(plans.take(0) =~= Seq::<PlanV>::empty());
    while j < rows.len()
        invariant
            j <= rows@.len(),
            total(widths_of(rows@)) <= usize::MAX / 8,
            nat_widths(widths@) == widths_of(rows@),
            vcw == value_column_width(rows@),
            plans == block_plans(rows@),
            out@ == emit_lines(plans.take(j as int), g as nat),
        decreases rows@.len() - j,
    {
        let plan = plan_row(rows, j, &widths, vcw);
        let line = emit(&plan, g, Ghost(plans[j as int]));
        push_str(&mut out, line.as_str());
        assert(plans.take(j + 1).drop_last() =~= plans.take(j as int));
        j = j + 1;
    }
    assert(plans.take(rows@.len() as int) =~= plans);
    out
}

/// Returns the shared monospace width used to lay out all blocks.
pub fn global_width_of(blocks: &[Block], min_width: usize) -> (r: usize)
    requires
        blocks_fit(blocks@),
    ensures
        r == global_width(blocks@, min_width as nat),
{
    let mut g: usize = min_width;
    let mut i: usize = 0;
    assert(blocks@.take(0) =~= Seq::<Block>::empty());
    while i < blocks.len()
        invariant
            i <= blocks@.len(),
            blocks_fit(blocks@),
            g == global_width(blocks@.take(i as int), min_width as nat),
        decreases blocks@.len() - i,
    {
        assert(block_fits(blocks@[i as int]));
        g = block_max_natural(&blocks[i].rows, g);
        assert(blocks@.take(i + 1).drop_last() =~= blocks@.take(i as int));
        assert(blocks@.take(i + 1).last() == blocks@[i as int]);
        i = i + 1;
    }
    assert(blocks@.take(blocks@.len() as int) =~= blocks@);
    g
}

/// Serializes blocks to table-free, monospace-aligned HTML.
pub fn render_blocks_monospace(blocks: &[Block], min_width: usize) -> (r: String)
    requires
        blocks_fit(blocks@),
    ensures
        r@ == monospace(blocks@, min_width as nat),
{
    let g = global_width_of(blocks, min_width);
    let mut out = String::new();
    let mut i: usize = 0;
    assert(blocks@.take(0) =~= Seq::<Block>::empty());
    while i < blocks.len()
        invariant
            i <= blocks@.len(),
            blocks_fit(blocks@),
            out@ == blocks_html(blocks@.take(i as int), g as nat),
        decreases blocks@.len() - i,
    {
        let block = &blocks[i];
        assert(block_fits(blocks@[i as int]));
        let ghost before = out@;
        match block.separator_size {
            Some(size) => {
                let rule = separator_rule_html(size);
                push_str(&mut out, rule.as_str());
            },
            None => {},
        }
        let lines = emit_block(&block.rows, g);
        push_str(&mut out, lines.as_str());
        assert(blocks@.take(i + 1).drop_last() =~= blocks@.take(i as int));
        assert(blocks@.take(i + 1).last() == blocks@[i as int]);
        assert(out@ =~= blocks_html(blocks@.take(i + 1), g as nat));
        i = i + 1;
    }
    assert(blocks@.take(blocks@.len() as int) =~= blocks@);
    out
}


/// The monospace footprint of an emitted line: its cells' widths plus the
/// gaps put between them (a title rule spans the whole width).
pub open spec fn line_width(p: PlanV, g: nat) -> nat {
    match p {
        PlanV::TwoPair { cells, .. } => {
            let half = g / 2;
            let first_gap = sat_sub(half, cell_width(cells[0]) + cell_width(cells[1]));
            let second_gap = sat_sub((g - half) as nat, cell_width(cells[2]) + cell_width(cells[3]));
            cell_width(cells[0]) + first_gap + cell_width(cells[1]) + cell_width(cells[2])
                + second_gap + cell_width(cells[3])
        },
        PlanV::RightValue { left_width, value_width, .. } => left_width + sat_sub(
            g,
            left_width + value_width,
        ) + value_width,
        PlanV::CenterMiddle { left_width, middle_width, value_width, value_column, .. } => {
            let region = sat_sub(g, value_column + left_width);
            let before = sat_sub(region, middle_width) / 2;
            let after = sat_sub(g, value_width + left_width + before + middle_width);
            left_width + before + middle_width + after + value_width
        },
        PlanV::TitleRule => g,
        PlanV::Left { natural, .. } => natural,
    }
}

proof fn lemma_value_column_covers(rows: Seq<Row>, r: int)
    requires
        0 <= r < rows.len(),
        rows[r]@.len() >= 2,
        rows[r]@.last().align == Align::Right,
    ensures
        cell_width(rows[r]@.last()) <= value_column_width(rows),
    decreases rows.len(),
{
    if r < rows.len() - 1 {
        lemma_value_column_covers(rows.drop_last(), r);
    }
}

proof fn lemma_max_natural_bounds(plans: Seq<PlanV>, w: nat, j: int)
    requires
        0 <= j < plans.len(),
    ensures
        natural_of(plans[j]) <= max_natural(plans, w),
        w <= max_natural(plans, w),
    decreases plans.len(),
{
    if j < plans.len() - 1 {
        lemma_max_natural_bounds(plans.drop_last(), w, j);
    } else if plans.len() > 1 {
        lemma_max_natural_bounds(plans.drop_last(), w, 0);
    }
}

proof fn lemma_max_natural_floor(plans: Seq<PlanV>, w: nat)
    ensures
        w <= max_natural(plans, w),
    decreases plans.len(),
{
    if plans.len() > 0 {
        lemma_max_natural_floor(plans.drop_last(), w);
    }
}

proof fn lemma_global_width_bounds(blocks: Seq<Block>, min_width: nat, i: int, j: int)
    requires
        0 <= i < blocks.len(),
        0 <= j < blocks[i].rows@.len(),
    ensures
        natural_of(block_plans(blocks[i].rows@)[j]) <= global_width(blocks, min_width),
    decreases blocks.len(),
{
    let pre = blocks.drop_last();
    let last_plans = block_plans(blocks.last().rows@);
    if i < blocks.len() - 1 {
        lemma_global_width_bounds(pre, min_width, i, j);
        lemma_max_natural_floor(last_plans, global_width(pre, min_width));
        assert(pre[i] == blocks[i]);
    } else {
        lemma_max_natural_bounds(last_plans, global_width(pre, min_width), j);
    }
}

/// A line's footprint when the shared width covers its natural width: value
/// and centered rows reach exactly the shared width, two-pair rows do too
/// when each pair fits its half, left rows keep their natural width, and no
/// other line is wider than the shared width.
pub proof fn lemma_line_width(p: PlanV, g: nat)
    requires
        natural_of(p) <= g,
        p is CenterMiddle ==> p->CenterMiddle_natural == p->CenterMiddle_left_width
            + p->CenterMiddle_middle_width + (if p->CenterMiddle_value_width > p->CenterMiddle_value_column {
                p->CenterMiddle_value_width
            } else {
                p->CenterMiddle_value_column
            }),
        p is CenterMiddle ==> p->CenterMiddle_value_width <= p->CenterMiddle_value_column,
        p is RightValue ==> p->RightValue_natural == p->RightValue_left_width + p->RightValue_value_width,
    ensures
        (p is RightValue || p is CenterMiddle || p is TitleRule) ==> line_width(p, g) == g,
        p is Left ==> line_width(p, g) == natural_of(p),
        p is TwoPair && cell_width(p->cells[0]) + cell_width(p->cells[1]) <= g / 2 && cell_width(
            p->cells[2],
        ) + cell_width(p->cells[3]) <= g - g / 2 ==> line_width(p, g) == g,
{
}

/// Every row of a monospace rendering lines up on the shared width: a
/// right-aligned value row, a centered-middle row or a title rule spans
/// exactly the global width, and a left-aligned row never exceeds it.
pub proof fn lemma_rows_share_right_edge(blocks: Seq<Block>, min_width: nat, i: int, j: int)
    requires
        0 <= i < blocks.len(),
        0 <= j < blocks[i].rows@.len(),
    ensures
        ({
            let g = global_width(blocks, min_width);
            let p = block_plans(blocks[i].rows@)[j];
            &&& natural_of(p) <= g
            &&& (p is RightValue || p is CenterMiddle || p is TitleRule) ==> line_width(p, g) == g
            &&& p is Left ==> line_width(p, g) <= g
        }),
{
    let g = global_width(blocks, min_width);
    let rows = blocks[i].rows@;
    let p = block_plans(rows)[j];
    lemma_global_width_bounds(blocks, min_width, i, j);
    assert(p == plan_of(rows[j]@, widths_of(rows), value_column_width(rows)));
    if rows[j]@.len() >= 2 && rows[j]@.last().align == Align::Right {
        lemma_value_column_covers(rows, j);
    }
    lemma_line_width(p, g);
}

} // verus!
