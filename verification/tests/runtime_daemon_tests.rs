use pirostats::cli::{help_text, subcommand_help, RenderPage};
use pirostats::daemon::{
    insert_before_tooltip_close, join_css, kdeglobals_background, page_index, parse_rgb, render_page_id, strip_css,
    DaemonPaths,
};
use pirostats::diagnostics::strip_html;
use pirostats::numbers::read_usize_default;
use pirostats::runtime::page::{step_target, PageDirection};
use pirostats::runtime::{
    geom_file, lock_file, npages_file, page_file, panel_file, runtime_dir_for, state_dir, tooltip_file,
};

// ── runtime paths ─────────────────────────────────────────────────────────

#[test]
fn state_dir_lives_under_runtime_dir() {
    let runtime = runtime_dir_for(Some("/run/user/1000"), 1000);

    assert_eq!(runtime, "/run/user/1000/pirostats");
    assert_eq!(state_dir(&runtime), format!("{runtime}/state"));
}

#[test]
fn known_files_live_at_documented_paths() {
    let runtime = runtime_dir_for(None, 1000);
    let state = format!("{runtime}/state");

    assert_eq!(runtime, "/tmp/pirostats-1000");
    assert_eq!(panel_file(&runtime), format!("{runtime}/panel.html"));
    assert_eq!(tooltip_file(&runtime), format!("{runtime}/tooltip.html"));
    assert_eq!(geom_file(&runtime), format!("{state}/geom"));
    assert_eq!(page_file(&runtime), format!("{state}/page"));
    assert_eq!(npages_file(&runtime), format!("{state}/npages"));
    assert_eq!(lock_file(&runtime), format!("{state}/page.lock"));
}

#[test]
fn empty_xdg_runtime_dir_falls_back_to_tmp() {
    assert_eq!(runtime_dir_for(Some(""), 42), "/tmp/pirostats-42");
}

// ── page stepping ─────────────────────────────────────────────────────────

#[test]
fn next_delta_is_plus_one() {
    assert_eq!(PageDirection::Next.delta(), 1);
}

#[test]
fn prev_delta_is_minus_one() {
    assert_eq!(PageDirection::Prev.delta(), -1);
}

#[test]
fn step_target_wraps_both_ways() {
    assert_eq!(step_target(2, 3, PageDirection::Next), Some(0));
    assert_eq!(step_target(0, 3, PageDirection::Prev), Some(2));
    assert_eq!(step_target(1, 3, PageDirection::Next), Some(2));
    assert_eq!(step_target(0, 1, PageDirection::Next), None);
    assert_eq!(step_target(5, 0, PageDirection::Prev), None);
}

#[test]
fn next_then_prev_returns_to_the_page() {
    for npages in 2..6usize {
        for page in 0..npages {
            let forward = step_target(page, npages, PageDirection::Next).unwrap();
            assert_eq!(step_target(forward, npages, PageDirection::Prev), Some(page));
        }
    }
}

#[test]
fn read_usize_default_returns_default_on_missing_file() {
    assert_eq!(read_usize_default(None, 7), 7);
}

#[test]
fn read_usize_default_returns_default_on_garbage() {
    assert_eq!(read_usize_default(Some("not-a-number"), 9), 9);
}

#[test]
fn read_usize_default_parses_trimmed_value() {
    assert_eq!(read_usize_default(Some("  42  \n"), 0), 42);
}

// ── daemon decisions ──────────────────────────────────────────────────────

#[test]
fn daemon_paths_live_under_runtime_and_home() {
    let paths = DaemonPaths::under("/run/user/1000/pirostats", "/home/u");

    assert_eq!(paths.state, "/run/user/1000/pirostats/state");
    assert_eq!(paths.panel, "/run/user/1000/pirostats/panel.html");
    assert_eq!(paths.page, "/run/user/1000/pirostats/state/page");
    assert_eq!(paths.plasma_config, "/home/u/.config/plasma-org.kde.plasma.desktop-appletsrc");
    assert_eq!(paths.kdeglobals, "/home/u/.config/kdeglobals");
}

#[test]
fn render_page_ids_are_stable() {
    assert_eq!(render_page_id(RenderPage::CpuCores), "cpu_cores");
    assert_eq!(render_page_id(RenderPage::Full), "full");
}

#[test]
fn rgb_and_luma_match_python_boundaries() {
    assert_eq!(parse_rgb("1, 2,3,255"), Some((1, 2, 3)));
    assert_eq!(parse_rgb("bad"), None);
    assert_eq!(parse_rgb("1,2"), None);
    assert_eq!(parse_rgb("-1,+2, 3"), Some((-1, 2, 3)));
}

#[test]
fn kdeglobals_background_reads_window_group_only() {
    let text = "[General]\nBackgroundNormal=9,9,9\n[Colors:Window]\nForegroundNormal=1,1,1\n BackgroundNormal=49,54,59\n";

    assert_eq!(kdeglobals_background(text), Some((49, 54, 59)));
    assert_eq!(kdeglobals_background("[General]\nBackgroundNormal=9,9,9\n"), None);
    assert_eq!(kdeglobals_background("[Colors:Window]\nBackgroundNormal=x\n"), None);
}

#[test]
fn css_comments_and_whitespace_are_stripped() {
    assert_eq!(strip_css("/* note */\n.a {\n color: red;\n}"), ".a { color: red; }");
    assert_eq!(strip_css("a /* open"), "a");
}

#[test]
fn css_overlay_joins_with_one_space() {
    assert_eq!(join_css("a", Some("b")), "a b");
    assert_eq!(join_css("a", Some("")), "a");
    assert_eq!(join_css("", Some("b")), "b");
    assert_eq!(join_css("a", None), "a");
}

#[test]
fn footer_is_inserted_inside_tooltip_root() {
    assert_eq!(
        insert_before_tooltip_close("<div class=\"tooltip\">x</div>".into(), "p"),
        "<div class=\"tooltip\">xp</div>"
    );
}

#[test]
fn footer_goes_before_the_last_close_or_at_the_end() {
    assert_eq!(insert_before_tooltip_close("<div><div>a</div></div>".into(), "f"), "<div><div>a</div>f</div>");
    assert_eq!(insert_before_tooltip_close("plain".into(), "f"), "plainf");
    assert_eq!(insert_before_tooltip_close("<div>x</div>".into(), ""), "<div>x</div>");
}

#[test]
fn page_index_wraps_and_defaults_to_zero() {
    assert_eq!(page_index(Some(" 4\n"), 3), 1);
    assert_eq!(page_index(Some("-1"), 3), 2);
    assert_eq!(page_index(Some("junk"), 3), 0);
    assert_eq!(page_index(None, 0), 0);
}

// ── diagnostics and help ──────────────────────────────────────────────────

#[test]
fn strip_html_preserves_rows_and_spacing() {
    assert_eq!(strip_html("<style>.x{}</style><div>a&nbsp;b<br>c</div>"), "a b\nc\n");
}

#[test]
fn help_text_omits_internal_migration_terms() {
    assert!(!help_text().contains("scaffold"));
}

#[test]
fn subcommand_help_names_the_subcommand() {
    assert!(subcommand_help("page").starts_with("usage: pirostats page"));
}
