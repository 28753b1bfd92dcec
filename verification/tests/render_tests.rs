use pirostats::config::BarConfig;
use pirostats::domain::form::Form;
use pirostats::domain::item::ItemRendering;
use pirostats::render::model::{
    auxiliary_cell, css_class_active, css_class_battery, css_class_from_thresholds, format_percent,
    group_rows_into_blocks, render_row_inline, render_three_col_row, render_two_pair_row, value_cell, Align, Block,
    Cell, Entry, Ident, Row, Separator, SeparatorSize, EMPTY_VALUE,
};
use pirostats::render::mono::{global_width_of, render_blocks_monospace};
use pirostats::render::pages::{encode_base64, graph_value_active, graph_value_band};
use pirostats::render::registry::{form_token, resolve_item};
use pirostats::render::traces::{
    bar_braille_row, bar_html, bar_layout_width, bar_row, bar_spark_row, braille_char, braille_html, braille_level,
    braille_row, column_html, spark_html, spark_row, standalone, TraceConfig, TraceMetric,
};
use pirostats::render::width::visible_width;

// ── model ─────────────────────────────────────────────────────────────────

fn row(count: usize) -> Row {
    (0..count).map(|index| Cell::new(&index.to_string())).collect()
}

fn separator(size: SeparatorSize) -> Entry {
    Entry::Separator(Separator { size })
}

#[test]
fn visible_width_strips_tags_and_decodes_entities() {
    assert_eq!(visible_width(r#"<span class="val crit">12%</span>"#), 3);
    assert_eq!(visible_width("a&nbsp;b"), 3);
    assert_eq!(visible_width("<b>x</b>&nbsp;&nbsp;"), 3);
    assert_eq!(visible_width("&lt;&#x41;&#65;&amp;"), 4);
    assert_eq!(visible_width("\u{f2db} ▇ ⣿"), 5);
    assert_eq!(visible_width("<>"), 2);
}

#[test]
fn threshold_boundaries_match_python() {
    assert_eq!(css_class_from_thresholds(10, (40, 70)), "good");
    assert_eq!(css_class_from_thresholds(40, (40, 70)), "warn");
    assert_eq!(css_class_from_thresholds(70, (40, 70)), "crit");
    assert_eq!(css_class_from_thresholds(100, (40, 70)), "crit");
    assert_eq!(css_class_active(2, 1), Some("active"));
    assert_eq!(css_class_active(1, 1), None);
    assert_eq!(css_class_battery(5, 20, 80), "crit");
    assert_eq!(css_class_battery(50, 20, 80), "warn");
    assert_eq!(css_class_battery(90, 20, 80), "good");
}

#[test]
fn cell_builders_preserve_role_identity_and_state_order() {
    let ident = Ident::new("cpu_usage", Some("value"));
    let value = value_cell("90%", Some("crit"), Some(&ident), 3);
    let auxiliary = auxiliary_cell("▇", None, Some(&ident), 1, 2, Some(1));

    assert_eq!(value.css_class.as_deref(), Some("val item-cpu_usage form-value crit"));
    assert_eq!(value.align, Align::Right);
    assert_eq!(value.min_width, 3);
    assert_eq!(auxiliary.css_class.as_deref(), Some("aux item-cpu_usage form-value"));
    assert_eq!((auxiliary.pad_left, auxiliary.pad_right), (1, 2));
    assert_eq!(auxiliary.layout_width, Some(1));
    assert_eq!(format_percent(100, false), "100");
    assert_eq!(format_percent(100, true), "100%");
    assert_eq!(format_percent(42, false), "42%");
}

#[test]
fn grouping_matches_shapes_and_explicit_separators() {
    let blocks = group_rows_into_blocks(vec![
        Entry::Row(row(2)),
        Entry::Row(row(2)),
        separator(SeparatorSize::Small),
        Entry::Row(row(4)),
        Entry::Row(row(4)),
    ]);

    assert_eq!(blocks.len(), 2);
    assert_eq!(blocks[0].rows.len(), 2);
    assert_eq!(blocks[0].separator_size, None);
    assert_eq!(blocks[1].rows.len(), 2);
    assert_eq!(blocks[1].separator_size, Some(SeparatorSize::Small));
}

#[test]
fn grouping_splits_same_cell_count_with_different_roles() {
    let paired = vec![
        Cell::classified("Up", "label"),
        Cell::classified("12K", "val"),
        Cell::classified("Down", "label"),
        Cell::classified("1K", "val"),
    ];
    let traces = vec![
        Cell::classified("Cpu", "label"),
        Cell::classified("12%", "val"),
        Cell::classified("", "aux"),
        Cell::classified("bar", "aux"),
    ];

    let blocks = group_rows_into_blocks(vec![Entry::Row(paired), Entry::Row(traces)]);

    assert_eq!(blocks.len(), 2);
}

#[test]
fn grouping_ignores_state_classes_but_isolates_spanning_rows() {
    let good = vec![Cell::classified("Cpu", "label"), Cell::classified("12%", "val good")];
    let critical = vec![Cell::classified("Mem", "label"), Cell::classified("90%", "val crit")];
    let spanning = vec![Cell::classified("spark", "aux")];

    let merged = group_rows_into_blocks(vec![Entry::Row(good.clone()), Entry::Row(critical.clone())]);
    let isolated = group_rows_into_blocks(vec![Entry::Row(good), Entry::Row(spanning), Entry::Row(critical)]);

    assert_eq!(merged.len(), 1);
    assert_eq!(isolated.len(), 3);
}

#[test]
fn grouping_discards_leading_trailing_and_empty_separators() {
    let blocks = group_rows_into_blocks(vec![
        separator(SeparatorSize::Big),
        Entry::Row(row(2)),
        separator(SeparatorSize::Big),
    ]);
    let empty = group_rows_into_blocks(Vec::<Entry>::new());

    assert_eq!(blocks.len(), 1);
    assert_eq!(blocks[0].separator_size, Some(SeparatorSize::Big));
    assert!(empty.is_empty());
}

#[test]
fn grouping_keeps_every_row_in_order() {
    let entries = vec![
        Entry::Row(row(1)),
        separator(SeparatorSize::Small),
        Entry::Row(row(2)),
        Entry::Row(row(3)),
        Entry::Row(Vec::new()),
        Entry::Row(row(3)),
    ];

    let blocks = group_rows_into_blocks(entries);
    let flattened: Vec<Row> = blocks.iter().flat_map(|b| b.rows.iter().cloned()).collect();

    assert_eq!(flattened, vec![row(1), row(2), row(3), Vec::new(), row(3)]);
}

#[test]
fn three_column_row_adds_gap_only_for_present_extra_text() {
    let nonempty = render_three_col_row(Cell::new("A"), Cell::new("B"), Cell::new("C"));
    let empty = render_three_col_row(Cell::new("A"), Cell::new(""), Cell::new("C"));

    assert_eq!(nonempty[1].pad_left, 1);
    assert_eq!(empty[1].pad_left, 0);
}

#[test]
fn inline_render_is_byte_identical_and_table_free() {
    let row = vec![Cell::classified("Cpu usage", "label"), Cell::classified("12%", "val good")];

    let html = render_row_inline(&row);

    assert_eq!(
        html,
        r#"<span class="label">Cpu usage</span><span class="gap">&nbsp;</span><span class="val good">12%</span>"#
    );
    assert!(!html.contains("<table"));
}

#[test]
fn inline_render_reserves_right_aligned_minimum_width() {
    let mut value = Cell::classified("9%", "val good");
    value.align = Align::Right;
    value.min_width = 3;

    assert_eq!(render_row_inline(&[value]), r#"<span class="val good">&nbsp;9%</span>"#);
}

#[test]
fn inline_render_separates_every_cell_in_multi_pair_row() {
    let row = render_two_pair_row(
        Cell::classified("Up", "label"),
        value_cell("12K", None, None, 0),
        Cell::classified("Down", "label"),
        value_cell("1K", None, None, 0),
    );

    assert_eq!(render_row_inline(&row).matches("&nbsp;").count(), 3);
}

// ── mono ──────────────────────────────────────────────────────────────────

fn label(text: &str) -> Cell {
    Cell::classified(text, "label")
}

fn value(text: &str) -> Cell {
    let mut cell = Cell::classified(text, "val");
    cell.align = Align::Right;
    cell
}

fn blocks(rows: Vec<Row>) -> Vec<Block> {
    group_rows_into_blocks(rows.into_iter().map(Entry::Row).collect())
}

fn div_line_widths(html: &str) -> Vec<usize> {
    html.split("<div>")
        .skip(1)
        .filter_map(|fragment| fragment.split_once("</div>").map(|(line, _)| line))
        .map(visible_width)
        .collect()
}

#[test]
fn plain_rows_are_table_free_and_share_a_right_edge() {
    let blocks = blocks(vec![vec![label("A:"), value("1%")], vec![label("LongerLabel:"), value("100%")]]);

    let html = render_blocks_monospace(&blocks, 0);
    let widths = div_line_widths(&html);

    assert!(!html.contains("<table"));
    assert_eq!(widths.len(), 2);
    assert_eq!(widths[0], widths[1]);
    assert!(widths[0] >= "LongerLabel:".len() + "100%".len());
    assert!(html.contains(r#">100%</span></div>"#));
}

#[test]
fn two_pair_row_splits_across_two_halves() {
    let blocks = blocks(vec![vec![label("Up:"), value("9K"), label("Down:"), value("1K")]]);

    let html = render_blocks_monospace(&blocks, 20);

    assert_eq!(div_line_widths(&html), vec![20]);
    for token in ["Up:", "9K", "Down:", "1K"] {
        assert!(html.contains(token));
    }
}

#[test]
fn four_left_aligned_cells_use_left_plan_not_two_pair() {
    let blocks = blocks(vec![vec![
        label("Cpu"),
        Cell::classified("▇", "aux"),
        label("Mem"),
        Cell::classified("▁", "aux"),
    ]]);

    let html = render_blocks_monospace(&blocks, 30);

    assert_eq!(div_line_widths(&html), vec![8]);
    assert!(!html.contains("&nbsp;"));
}

#[test]
fn center_middle_rows_align_slashes_against_block_value_width() {
    let mut middle1 = Cell::classified("1G / 9G", "aux");
    middle1.align = Align::Center;
    let mut middle2 = Cell::classified("10G / 99G", "aux");
    middle2.align = Align::Center;
    let blocks = blocks(vec![
        vec![label("Root:"), middle1, value("9%")],
        vec![label("Backup:"), middle2, value("100%")],
    ]);

    let html = render_blocks_monospace(&blocks, 30);

    assert_eq!(div_line_widths(&html), vec![30, 30]);
    assert!(html.contains("1G / 9G"));
    assert!(html.contains("10G / 99G"));
}

#[test]
fn layout_width_overrides_small_font_character_count() {
    let mut bar = Cell::classified("██████████", "aux");
    bar.layout_width = Some(2);
    let blocks = blocks(vec![vec![bar]]);

    assert_eq!(global_width_of(&blocks, 0), 2);
}

#[test]
fn explicit_small_and_big_separators_emit_only_requested_rules() {
    for (size, expected, absent) in [
        (SeparatorSize::Small, "separator-rule-small", "separator-rule-big"),
        (SeparatorSize::Big, "separator-rule-big", "separator-rule-small"),
    ] {
        let entries = vec![
            Entry::Row(vec![label("A:"), value("1")]),
            Entry::Separator(Separator { size }),
            Entry::Row(vec![label("B:"), value("2")]),
        ];
        let blocks = group_rows_into_blocks(entries);

        let html = render_blocks_monospace(&blocks, 0);

        assert!(html.contains(expected));
        assert!(!html.contains(absent));
    }
}

#[test]
fn title_is_left_aligned_and_rule_does_not_drive_width() {
    let blocks = blocks(vec![
        vec![Cell::classified("Title", "title")],
        vec![Cell::classified("", "title-rule")],
        vec![label("LongerLabel:"), value("100%")],
    ]);

    let html = render_blocks_monospace(&blocks, 0);

    assert!(html.contains(r#"<div><span class="title">Title</span></div>"#));
    assert!(html.contains(r#"<div width="100%" class="title-rule">&nbsp;</div>"#));
    assert!(html.contains(r#"<span class="val">100%</span></div>"#));
    assert_eq!(global_width_of(&blocks, 0), "LongerLabel:".len() + "100%".len());
}

#[test]
fn minimum_width_floors_value_rows() {
    let blocks = blocks(vec![vec![label("A:"), value("1")]]);

    let html = render_blocks_monospace(&blocks, 12);

    assert_eq!(global_width_of(&blocks, 12), 12);
    assert_eq!(div_line_widths(&html), vec![12]);
}

#[test]
fn every_layout_plan_matches_fixed_python_byte_corpus() {
    let mut first_middle = Cell::classified("1G / 9G", "aux");
    first_middle.align = Align::Center;
    let mut second_middle = Cell::classified("10G / 99G", "aux");
    second_middle.align = Align::Center;
    let mut small_bar = Cell::classified(r#"<span class="bar-good">██</span>"#, "aux");
    small_bar.layout_width = Some(1);
    let entries = vec![
        Entry::Row(vec![Cell::classified("Title", "title")]),
        Entry::Row(vec![Cell::classified("", "title-rule")]),
        Entry::Separator(Separator { size: SeparatorSize::Small }),
        Entry::Row(vec![label("A:"), value("9%")]),
        Entry::Row(vec![label("Long:"), value("100%")]),
        Entry::Row(vec![label("Disk:"), first_middle, value("9%")]),
        Entry::Row(vec![label("Disk 2:"), second_middle, value("100%")]),
        Entry::Row(vec![label("Up:"), value("9K"), label("Down:"), value("1K")]),
        Entry::Row(vec![label("Cpu"), small_bar, label("Mem"), Cell::classified("▁", "aux")]),
    ];
    let blocks = group_rows_into_blocks(entries);

    let actual = render_blocks_monospace(&blocks, 24);
    let expected = [
        r#"<div><span class="title">Title</span></div>"#,
        r#"<div width="100%" class="title-rule">&nbsp;</div>"#,
        r#"<div width="100%" class="separator-rule-small">&nbsp;</div>"#,
        r#"<div><span class="label">A:</span>"#,
        r#"<span class="gap">&nbsp;&nbsp;&nbsp;</span>"#,
        r#"<span class="gap">&nbsp;&nbsp;&nbsp;&nbsp;&nbsp;&nbsp;&nbsp;&nbsp;&nbsp;&nbsp;&nbsp;&nbsp;&nbsp;&nbsp;&nbsp;&nbsp;&nbsp;</span>"#,
        r#"<span class="val">9%</span></div>"#,
        r#"<div><span class="label">Long:</span>"#,
        r#"<span class="gap">&nbsp;&nbsp;&nbsp;&nbsp;&nbsp;&nbsp;&nbsp;&nbsp;&nbsp;&nbsp;&nbsp;&nbsp;&nbsp;&nbsp;&nbsp;</span>"#,
        r#"<span class="val">100%</span></div>"#,
        r#"<div><span class="label">Disk:</span>"#,
        r#"<span class="gap">&nbsp;&nbsp;</span>"#,
        r#"<span class="gap">&nbsp;&nbsp;&nbsp;</span>"#,
        r#"<span class="aux">1G / 9G</span>"#,
        r#"<span class="gap">&nbsp;&nbsp;&nbsp;&nbsp;&nbsp;</span>"#,
        r#"<span class="val">9%</span></div>"#,
        r#"<div><span class="label">Disk 2:</span>"#,
        r#"<span class="gap">&nbsp;&nbsp;</span>"#,
        r#"<span class="aux">10G / 99G</span>"#,
        r#"<span class="gap">&nbsp;&nbsp;</span>"#,
        r#"<span class="val">100%</span></div>"#,
        r#"<div><span class="label">Up:</span>"#,
        r#"<span class="gap">&nbsp;&nbsp;&nbsp;&nbsp;&nbsp;&nbsp;&nbsp;</span>"#,
        r#"<span class="val">9K</span><span class="label">Down:</span>"#,
        r#"<span class="gap">&nbsp;&nbsp;&nbsp;&nbsp;&nbsp;</span>"#,
        r#"<span class="val">1K</span></div>"#,
        r#"<div><span class="label">Cpu</span>"#,
        r#"<span class="aux"><span class="bar-good">██</span></span>"#,
        r#"<span class="label">Mem</span><span class="aux">▁</span></div>"#,
    ].concat();

    assert_eq!(actual.as_bytes(), expected.as_bytes());
}

#[test]
fn right_edges_remain_equal_across_width_sweep() {
    for label_width in 0..16 {
        for value_width in 1..6 {
            let first_label = "L".repeat(label_width);
            let first_value = "1".repeat(value_width);
            let blocks = blocks(vec![
                vec![label(&first_label), value(&first_value)],
                vec![label("fixed-label"), value("100%")],
            ]);

            let widths = div_line_widths(&render_blocks_monospace(&blocks, 20));

            assert_eq!(widths.len(), 2);
            assert_eq!(widths[0], widths[1]);
            assert!(widths[0] >= 20);
        }
    }
}

// ── traces ────────────────────────────────────────────────────────────────

fn ident(metric: &str, form: &str) -> Ident {
    Ident::new(metric, Some(form))
}

fn cfg() -> TraceConfig {
    TraceConfig::default()
}

fn cfg_with_small_tooltip_bar() -> TraceConfig {
    let mut cfg = cfg();
    cfg.bar_tooltip = BarConfig { width: 6, height: 3 };
    cfg.panel_font_size = 4;
    cfg
}

fn aux(text: &str, class: &str, pad_left: usize, pad_right: usize, layout_width: Option<usize>) -> Cell {
    Cell {
        text: String::from(text),
        css_class: Some(String::from(class)),
        align: Align::Left,
        pad_left,
        pad_right,
        min_width: 0,
        layout_width,
    }
}

#[test]
fn bar_html_is_empty_without_value_or_width() {
    let mut cfg = cfg();
    cfg.bar_tooltip.width = 6;
    assert!(bar_html(&cfg, None, (50, 70), true).is_empty());

    cfg.bar_tooltip.width = 0;
    assert!(bar_html(&cfg, Some(50), (50, 70), true).is_empty());
}

#[test]
fn bar_and_column_html_match_fixed_python_bytes() {
    let cfg = cfg_with_small_tooltip_bar();

    assert_eq!(
        bar_html(&cfg, Some(50), (50, 70), true),
        r#"<span class="bar-warn" style="font-size:3px">███</span><span class="bar-empty" style="font-size:3px">░░░</span>"#
    );
    assert_eq!(
        bar_html(&cfg, Some(83), (50, 70), false),
        r#"<span class="bar-crit">██████████████████</span><span class="bar-empty">░░░░</span>"#
    );
    assert_eq!(column_html(&cfg, Some(83), (50, 70)), r#"<span class="bar-crit">▇</span>"#);
}

#[test]
fn spark_html_is_empty_without_history() {
    assert!(spark_html(&cfg(), None, TraceMetric::Cpu, true).is_empty());
}

#[test]
fn spark_html_matches_fixed_python_bytes_for_cpu_and_mem() {
    let cfg = cfg_with_small_tooltip_bar();

    assert_eq!(
        spark_html(&cfg, Some(&[10, 20, 30]), TraceMetric::Cpu, true),
        r#"<span class="spark-empty">▁▁</span><span class="bar-good">▁</span><span class="bar-good">▂</span><span class="bar-good">▃</span>"#
    );
    assert_eq!(
        spark_html(&cfg, Some(&[15, 42, 61]), TraceMetric::Memory, false),
        r#"<span class="spark-empty">▁▁</span><span class="bar-good">▂</span><span class="bar-warn">▄</span><span class="bar-crit">▅</span>"#
    );
}

#[test]
fn braille_helpers_match_python_boundaries() {
    assert_eq!(braille_level(0), 1);
    assert_eq!(braille_level(1), 1);
    assert_eq!(braille_level(25), 1);
    assert_eq!(braille_level(26), 2);
    assert_eq!(braille_level(100), 4);
    assert_eq!(braille_char(Some(10), Some(20)), '⣀');
    assert_eq!(braille_char(Some(50), Some(60)), '⣴');
    assert_eq!(braille_char(None, None), '⠀');
}

#[test]
fn braille_html_matches_fixed_python_bytes_and_char_override() {
    let cfg = cfg_with_small_tooltip_bar();

    assert_eq!(
        braille_html(&cfg, Some(&[10, 20, 30, 40, 50, 60]), TraceMetric::Cpu, true, None),
        r#"⠀⠀<span class="grad-cpu-1">⣀</span><span class="grad-cpu-3">⣤</span><span class="grad-cpu-4">⣴</span>"#
    );
    assert_eq!(
        braille_html(&cfg, Some(&[15, 42, 61]), TraceMetric::Memory, false, None),
        r#"⠀⠀⠀<span class="grad-mem-1">⢀</span><span class="grad-mem-4">⣴</span>"#
    );
    assert_eq!(
        braille_html(&cfg, Some(&[10, 20, 30, 40]), TraceMetric::Cpu, true, Some(1)),
        r#"<span class="grad-cpu-3">⣤</span>"#
    );
}

#[test]
fn bar_layout_width_matches_python_half_even_rounding() {
    let mut cfg = cfg();
    cfg.panel_font_size = 4;
    cfg.bar_tooltip.width = 10;
    cfg.bar_tooltip.height = 1;
    assert_eq!(bar_layout_width(&cfg, true), Some(2));

    cfg.bar_tooltip.width = 14;
    assert_eq!(bar_layout_width(&cfg, true), Some(4));

    cfg.bar_tooltip.height = 0;
    assert_eq!(bar_layout_width(&cfg, true), None);
}

#[test]
fn standalone_rows_collapse_on_empty_html() {
    assert!(standalone("", &ident("cpu_usage", "bar"), None).is_empty());
}

#[test]
fn standalone_row_builders_match_fixed_python_rows() {
    let cfg = cfg_with_small_tooltip_bar();

    assert_eq!(
        bar_row(&cfg, Some(50), (50, 70), true, &ident("cpu_usage", "bar")),
        vec![vec![aux(
            r#"<span class="bar-warn" style="font-size:3px">███</span><span class="bar-empty" style="font-size:3px">░░░</span>"#,
            "aux item-cpu_usage form-bar",
            0,
            0,
            Some(4),
        )]],
    );
    assert_eq!(
        spark_row(&cfg, Some(&[10, 20, 30]), TraceMetric::Cpu, true, &ident("cpu_usage", "spark")),
        vec![vec![aux(
            r#"<span class="spark-empty">▁▁</span><span class="bar-good">▁</span><span class="bar-good">▂</span><span class="bar-good">▃</span>"#,
            "aux item-cpu_usage form-spark",
            0,
            0,
            None,
        )]],
    );
    assert_eq!(
        braille_row(&cfg, Some(&[10, 20, 30, 40]), TraceMetric::Cpu, true, &ident("cpu_usage", "braille")),
        vec![vec![aux(
            r#"⠀⠀⠀<span class="grad-cpu-1">⣀</span><span class="grad-cpu-3">⣤</span>"#,
            "aux item-cpu_usage form-braille",
            0,
            0,
            None,
        )]],
    );
}

#[test]
fn combo_rows_drop_half_built_rows_and_share_presence_logic() {
    let mut cfg = cfg();
    cfg.bar_tooltip.width = 0;
    assert!(bar_spark_row(&cfg, TraceMetric::Cpu, Some(50), (50, 70), Some(&[10, 20]), true).is_empty());

    let cfg = cfg_with_small_tooltip_bar();
    assert!(!bar_row(&cfg, Some(50), (50, 70), true, &ident("cpu_usage", "bar")).is_empty());
    assert!(!spark_row(&cfg, Some(&[10, 20]), TraceMetric::Cpu, true, &ident("cpu_usage", "spark")).is_empty());
    assert!(!bar_spark_row(&cfg, TraceMetric::Cpu, Some(50), (50, 70), Some(&[10, 20]), true).is_empty());
}

#[test]
fn combo_rows_match_fixed_python_structure() {
    let cfg = cfg_with_small_tooltip_bar();

    assert_eq!(
        bar_spark_row(&cfg, TraceMetric::Cpu, Some(50), (50, 70), Some(&[10, 20, 30]), true),
        vec![vec![
            aux(" ", "label item-cpu_usage form-bar", 0, 0, None),
            aux(
                r#"<span class="bar-warn" style="font-size:3px">███</span><span class="bar-empty" style="font-size:3px">░░░</span>"#,
                "aux item-cpu_usage form-bar",
                1,
                2,
                None,
            ),
            aux(" ", "label item-cpu_usage form-spark", 0, 0, None),
            aux(
                r#"<span class="spark-empty">▁▁</span><span class="bar-good">▁</span><span class="bar-good">▂</span><span class="bar-good">▃</span>"#,
                "aux item-cpu_usage form-spark",
                2,
                0,
                None,
            ),
        ]],
    );
    assert_eq!(
        bar_braille_row(&cfg, TraceMetric::Memory, Some(50), (40, 60), Some(&[10, 20, 30, 40]), true),
        vec![vec![
            aux(" ", "label item-mem_usage form-bar", 0, 0, None),
            aux(
                r#"<span class="bar-warn" style="font-size:3px">███</span><span class="bar-empty" style="font-size:3px">░░░</span>"#,
                "aux item-mem_usage form-bar",
                1,
                2,
                None,
            ),
            aux(" ", "label item-mem_usage form-spark", 0, 0, None),
            aux(
                r#"⠀⠀⠀<span class="grad-mem-1">⣀</span><span class="grad-mem-3">⣤</span>"#,
                "aux item-mem_usage form-braille",
                2,
                0,
                None,
            ),
        ]],
    );
}

#[test]
fn combo_rows_pull_icons_and_labels_from_config() {
    let mut cfg = cfg_with_small_tooltip_bar();
    cfg.icons.push((String::from("cpu_usage"), String::from("")));
    cfg.labels.push((String::from("cpu_usage"), String::from("CPU")));
    cfg.labels.push((String::from("history"), String::from("History")));
    cfg.labels.push((String::from("delimiter"), String::from(":")));

    let rows = bar_spark_row(&cfg, TraceMetric::Cpu, Some(50), (50, 70), Some(&[10, 20]), true);

    assert_eq!(rows.len(), 1);
    assert_eq!(rows[0][0].text, " CPU:");
    assert_eq!(rows[0][2].text, " History:");
}

// ── pages and registry ────────────────────────────────────────────────────

#[test]
fn graph_value_helpers_match_threshold_classes() {
    assert!(graph_value_band(None, Some((50, 70))).contains(EMPTY_VALUE));
    assert_eq!(graph_value_active(Some(0), Some(1)), r#"<span class="val ">0%</span>"#);
}

#[test]
fn graph_value_band_classes_by_threshold() {
    assert_eq!(graph_value_band(Some(60), Some((50, 70))), r#"<span class="val warn">60%</span>"#);
    assert_eq!(graph_value_band(Some(-3), None), r#"<span class="val ">-3%</span>"#);
    assert_eq!(graph_value_active(Some(5), Some(1)), r#"<span class="val active">5%</span>"#);
}

#[test]
fn base64_matches_standard_alphabet_and_padding() {
    assert_eq!(encode_base64(b""), "");
    assert_eq!(encode_base64(b"f"), "Zg==");
    assert_eq!(encode_base64(b"fo"), "Zm8=");
    assert_eq!(encode_base64(b"foo"), "Zm9v");
    assert_eq!(encode_base64(b"foobar"), "Zm9vYmFy");
    assert_eq!(encode_base64(&[0xfb, 0xff]), "+/8=");
}

#[test]
fn bar_form_css_token_depends_on_orientation() {
    assert_eq!(form_token(Some(Form::Bar), true), Some("bar"));
    assert_eq!(form_token(Some(Form::Bar), false), Some("column"));
}

#[test]
fn resolve_item_parses_valid_tokens() {
    let cpu = resolve_item("cpu_usage:spark_value", false).expect("cpu token");
    let net = resolve_item("net_speed", false).expect("intrinsic token");

    assert_eq!(cpu.form_token, Some("spark_value"));
    assert!(matches!(cpu.token.rendering(), ItemRendering::Generic(Form::SparkValue)));
    assert_eq!(net.form_token, None);
    assert!(resolve_item("bogus", false).is_none());
}

// ── cpu cores page ────────────────────────────────────────────────────────

use pirostats::render::pages::{cpu_cores_page, format_cpu_cores, format_top_process, top_process_page, wrap_tooltip, ProcessColumns};
use pirostats::domain::state::TopProcessDetails;

#[test]
fn format_page_wraps_tooltip_shell() {
    let html = wrap_tooltip("<div class=\"page\">x</div>", "", "<h>", "<f>");

    assert_eq!(html, r#"<div class="tooltip"><h><div class="page">x</div><f></div>"#);
}

#[test]
fn format_cpu_cores_uses_no_data_message_when_absent() {
    let html = format_cpu_cores(&cfg(), 0, (50, 70), None, None, "", "", None);

    assert_eq!(html, r#"<div class="tooltip"><div class="page">cpu cores: no data yet</div></div>"#);
    assert_eq!(format_cpu_cores(&cfg(), 0, (50, 70), Some(&[]), None, "", "", None), html);
}

#[test]
fn format_cpu_cores_emits_expected_shell_bits() {
    let usage = vec![10, 20];
    let history = vec![vec![10, 20, 30, 40], vec![15, 25, 35, 45]];

    let cpu = format_cpu_cores(&cfg(), 34, (50, 70), Some(&usage), Some(&history), "", "<header>", None);
    let (_, width) = cpu_cores_page(&cfg(), 34, (50, 70), Some(&usage), Some(&history)).unwrap();

    assert_eq!(
        cpu,
        "<div class=\"tooltip\"><header><div class=\"page\"><span class=\"label\">Core 0:&nbsp;</span>⠀⠀⠀⠀⠀⠀⠀⠀⠀⠀⠀⠀⠀⠀⠀⠀⠀⠀⠀<span class=\"grad-cpu-1\">⣀</span><span class=\"grad-cpu-3\">⣤</span><span class=\"gap\">&nbsp;</span><span class=\"val good\">&nbsp;10%</span><br><span class=\"label\">Core 1:&nbsp;</span>⠀⠀⠀⠀⠀⠀⠀⠀⠀⠀⠀⠀⠀⠀⠀⠀⠀⠀⠀<span class=\"grad-cpu-2\">⣀</span><span class=\"grad-cpu-3\">⣤</span><span class=\"gap\">&nbsp;</span><span class=\"val good\">&nbsp;20%</span></div></div>"
    );
    assert_eq!(width, 34);
}

#[test]
fn format_cpu_cores_centres_the_pager_on_the_table_width() {
    let usage = vec![95];
    let html = format_cpu_cores(&cfg(), 0, (50, 70), Some(&usage), None, "", "", Some((1, 2)));

    // label 6, braille 5, value 4, two gaps: 17 columns, 3 dots.
    assert!(html.contains(r#"<span class="val crit">&nbsp;95%</span>"#));
    assert!(html.ends_with(
        r#"<div class="pager">&nbsp;&nbsp;&nbsp;&nbsp;&nbsp;&nbsp;&nbsp;<span class="off">●</span>&nbsp;<span class="on">●</span></div></div>"#
    ));
}

#[test]
fn format_cpu_cores_and_top_process_emit_expected_shell_bits() {
    let usage = vec![10, 20];
    let history = vec![vec![10, 20, 30, 40], vec![15, 25, 35, 45]];
    let cpu = format_cpu_cores(&cfg(), 34, (50, 70), Some(&usage), Some(&history), "", "<header>", None);
    assert_eq!(
        cpu,
        "<div class=\"tooltip\"><header><div class=\"page\"><span class=\"label\">Core 0:&nbsp;</span>⠀⠀⠀⠀⠀⠀⠀⠀⠀⠀⠀⠀⠀⠀⠀⠀⠀⠀⠀<span class=\"grad-cpu-1\">⣀</span><span class=\"grad-cpu-3\">⣤</span><span class=\"gap\">&nbsp;</span><span class=\"val good\">&nbsp;10%</span><br><span class=\"label\">Core 1:&nbsp;</span>⠀⠀⠀⠀⠀⠀⠀⠀⠀⠀⠀⠀⠀⠀⠀⠀⠀⠀⠀<span class=\"grad-cpu-2\">⣀</span><span class=\"grad-cpu-3\">⣤</span><span class=\"gap\">&nbsp;</span><span class=\"val good\">&nbsp;20%</span></div></div>"
    );
    let rows = vec![
        TopProcessDetails { pid: 1234, command: String::from("plasmashell --replace"), cpu_percent: 12, memory_tenths: 32 },
        TopProcessDetails { pid: 999_999, command: String::from("firefox"), cpu_percent: 70, memory_tenths: 124 },
    ];
    let columns = ProcessColumns { min_pid: 3, min_command: 7 };
    let proc = format_top_process(Some(&rows), 34, (50, 70), (15, 30), columns, "", "<header>", None);
    assert_eq!(
        proc,
        "<div class=\"tooltip\"><header><div class=\"page\">&nbsp;&nbsp;&nbsp;<span class=\"label\">PID</span>&nbsp;&nbsp;<span class=\"label\">COMMAND</span>&nbsp;&nbsp;&nbsp;&nbsp;&nbsp;&nbsp;&nbsp;&nbsp;&nbsp;<span class=\"label\">%CPU</span>&nbsp;&nbsp;<span class=\"label\">%MEM</span><br>&nbsp;&nbsp;<span class=\"label\">1234</span>&nbsp;&nbsp;plasmashell --…&nbsp;&nbsp;&nbsp;<span class=\"val good\">12</span>&nbsp;&nbsp;&nbsp;<span class=\"val good\">3.2</span><br><span class=\"label\">999999</span>&nbsp;&nbsp;firefox&nbsp;&nbsp;&nbsp;&nbsp;&nbsp;&nbsp;&nbsp;&nbsp;&nbsp;&nbsp;&nbsp;<span class=\"val crit\">70</span>&nbsp;&nbsp;<span class=\"val good\">12.4</span></div></div>"
    );
    let (_, width) = top_process_page(&rows, 34, (50, 70), (15, 30), columns).unwrap();
    assert_eq!(width, 34);
}
