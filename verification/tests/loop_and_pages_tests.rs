use pirostats::cli::{Cli, RenderPage};
use pirostats::config::assets::compute_code_root;
use pirostats::daemon::render_page_id;
use pirostats::daemon_loop::{daemon_tick, DaemonAction, DaemonEvent, DaemonLoopState};
use pirostats::domain::form::{Surface, SurfaceSet};
use pirostats::domain::state::TopProcessDetails;
use pirostats::numbers::read_usize_default;
use pirostats::page_commands::build_pages;
use pirostats::render::pages::{format_top_process, ProcessColumns};
use pirostats::text::usize_to_string;

fn columns() -> ProcessColumns {
    ProcessColumns { min_pid: 3, min_command: 7 }
}

#[test]
fn format_top_process_escapes_commands_and_caps_rows() {
    let rows: Vec<TopProcessDetails> = (0..16)
        .map(|index| TopProcessDetails {
            pid: 1000 + index,
            command: if index == 0 { String::from("<worker>") } else { format!("worker-{index}") },
            cpu_percent: 1,
            memory_tenths: 10,
        })
        .collect();
    let html = format_top_process(Some(&rows), 34, (50, 80), (50, 80), columns(), "", "", None);
    assert!(html.contains("&lt;worker&gt;"));
    assert!(!html.contains("worker-15"));
    assert!(!html.contains("<table"));
}

#[test]
fn top_process_page_lays_out_one_exact_row() {
    let rows = vec![TopProcessDetails { pid: 42, command: String::from("bash"), cpu_percent: 5, memory_tenths: 12 }];
    let html = format_top_process(Some(&rows), 0, (50, 70), (10, 20), columns(), "", "", None);
    let header = "<span class=\"label\">PID</span>&nbsp;&nbsp;<span class=\"label\">COMMAND</span>&nbsp;\
<span class=\"label\">%CPU</span>&nbsp;&nbsp;<span class=\"label\">%MEM</span>";
    let row = "&nbsp;<span class=\"label\">42</span>&nbsp;&nbsp;bash&nbsp;&nbsp;&nbsp;&nbsp;\
&nbsp;&nbsp;&nbsp;<span class=\"val good\">5</span>&nbsp;&nbsp;&nbsp;<span class=\"val good\">1.2</span>";
    assert_eq!(html, format!("<div class=\"tooltip\"><div class=\"page\">{header}<br>{row}</div></div>"));
}

#[test]
fn top_process_page_bands_memory_and_reports_no_data() {
    let rows = vec![TopProcessDetails { pid: 7, command: String::from("x"), cpu_percent: 90, memory_tenths: 205 }];
    let html = format_top_process(Some(&rows), 0, (50, 70), (10, 20), columns(), "", "", None);
    assert!(html.contains("<span class=\"val crit\">90</span>"));
    assert!(html.contains("<span class=\"val crit\">20.5</span>"));
    let empty = format_top_process(Some(&[]), 0, (50, 70), (10, 20), columns(), "c", "h", None);
    assert_eq!(empty, "<style>c</style><div class=\"tooltip\">h<div class=\"page\">top processes: no data yet</div></div>");
}

fn state() -> DaemonLoopState {
    DaemonLoopState {
        config: Some(1),
        machines: vec![Some(2), None],
        plasma: Some(3),
        geom: None,
        kde: Some(4),
        light: false,
        overlay: false,
        css: Some(5),
        overlay_css: None,
        periph_scan_at: None,
        page: 0,
    }
}

#[test]
fn unchanged_files_trigger_nothing_and_changes_trigger_reloads() {
    let s = state();
    let same = DaemonEvent::Files { config: Some(1), machines: vec![Some(2), None], plasma: Some(3), geom: None };
    let (next, actions) = daemon_tick(&s, &same);
    assert!(actions.is_empty());
    assert_eq!(next, s);
    let machine = DaemonEvent::Files { config: Some(1), machines: vec![Some(2), Some(9)], plasma: Some(3), geom: Some(8) };
    let (next, actions) = daemon_tick(&s, &machine);
    assert_eq!(actions, vec![DaemonAction::ReloadConfig, DaemonAction::RedetectGeometry]);
    assert_eq!(next.machines, vec![Some(2), Some(9)]);
    assert_eq!(next.geom, Some(8));
    let (_, actions) = daemon_tick(&next, &machine);
    assert!(actions.is_empty());
}

#[test]
fn colour_flip_selects_the_other_stylesheet_once() {
    let s = state();
    let flip = DaemonEvent::Style {
        kde: Some(6),
        light: true,
        overlay_wanted: false,
        light_css: Some(7),
        dark_css: Some(5),
        overlay_css: Some(1),
    };
    let (next, actions) = daemon_tick(&s, &flip);
    assert_eq!(actions, vec![DaemonAction::LoadCss { light: true, overlay: false }]);
    assert!(next.light);
    assert_eq!(next.css, Some(7));
    let (_, again) = daemon_tick(&next, &flip);
    assert!(again.is_empty());
    // A light probe without a changed colour file is ignored.
    let stale = DaemonEvent::Style {
        kde: Some(4),
        light: true,
        overlay_wanted: false,
        light_css: Some(7),
        dark_css: Some(5),
        overlay_css: None,
    };
    let (kept, actions) = daemon_tick(&s, &stale);
    assert!(actions.is_empty());
    assert!(!kept.light);
}

#[test]
fn peripherals_are_rescanned_at_most_once_a_minute() {
    let s = state();
    let poll = |now: u128| DaemonEvent::Poll { now, periph_wanted: true, page: 1, top_process: true };
    let (next, actions) = daemon_tick(&s, &poll(10));
    assert_eq!(
        actions,
        vec![
            DaemonAction::RescanPeripherals,
            DaemonAction::RefreshTopProcess,
            DaemonAction::RenderPanel,
            DaemonAction::RenderTooltip { page: 1 },
        ]
    );
    let (_, actions) = daemon_tick(&next, &poll(59_000_000_010));
    assert_eq!(actions[0], DaemonAction::RefreshTopProcess);
    let (_, actions) = daemon_tick(&next, &poll(60_000_000_010));
    assert_eq!(actions[0], DaemonAction::RescanPeripherals);
}

#[test]
fn waits_in_tenth_second_steps_and_rerenders_a_new_page() {
    let s = state();
    let (_, actions) = daemon_tick(&s, &DaemonEvent::Wait { remaining: 250_000_000 });
    assert_eq!(actions, vec![DaemonAction::Sleep { nanos: 100_000_000 }]);
    let (_, actions) = daemon_tick(&s, &DaemonEvent::Wait { remaining: 30 });
    assert_eq!(actions, vec![DaemonAction::Sleep { nanos: 30 }]);
    let (_, actions) = daemon_tick(&s, &DaemonEvent::Wait { remaining: 0 });
    assert!(actions.is_empty());
    let (_, actions) = daemon_tick(&s, &DaemonEvent::PageSeen { page: 0, top_process: false });
    assert!(actions.is_empty());
    let (next, actions) = daemon_tick(&s, &DaemonEvent::PageSeen { page: 2, top_process: false });
    assert_eq!(actions, vec![DaemonAction::RenderTooltip { page: 2 }]);
    assert_eq!(next.page, 2);
}

#[test]
fn page_counter_reads_back_what_was_written() {
    for n in [0usize, 7, 10, 12345, usize::MAX] {
        assert_eq!(read_usize_default(Some(&usize_to_string(n)), 3), n);
    }
}

#[test]
fn every_cli_page_names_a_registry_page() {
    for page in [RenderPage::Processes, RenderPage::CpuCores, RenderPage::Connections, RenderPage::Fastfetch, RenderPage::Graphs] {
        let id = render_page_id(page);
        let pages = build_pages(&[id.to_string()]);
        assert_eq!(pages.len(), 2);
        assert_eq!(pages[1].id, id);
    }
}

#[test]
fn parsed_command_is_named_by_its_first_argument() {
    for name in ["daemon", "render", "probe", "profiling", "list-items", "page", "click"] {
        let cli = Cli::parse(vec![Some(String::from("pirostats")), Some(String::from(name))]).unwrap();
        assert_eq!(cli.command.name(), name);
    }
}

#[test]
fn default_code_root_is_above_the_manifest_directory() {
    assert_eq!(compute_code_root(None, "/src/pirostats/rust"), "/src/pirostats/rust/..");
    assert_eq!(compute_code_root(Some(""), "/m"), compute_code_root(None, "/m"));
}

#[test]
fn surface_sets_with_the_same_members_are_equal() {
    assert_eq!(SurfaceSet::from_flags(true, false, false), SurfaceSet::tooltip());
    assert_eq!(SurfaceSet::from_surface(Surface::PanelVertical).intersection(SurfaceSet::panel()), SurfaceSet::from_flags(false, false, true));
}

use pirostats::render::pages::{graphs_page, GpuGraph, GraphImages, GraphPalette, GraphsInput};

fn palette() -> GraphPalette {
    GraphPalette {
        cpu: (61, 174, 233),
        memory: (163, 102, 255),
        gpu: (39, 174, 96),
        decoder: (243, 156, 18),
        download: (26, 188, 156),
        upload: (231, 76, 60),
    }
}

fn normalize_png_uris(mut html: String) -> String {
    const PREFIX: &str = "data:image/png;base64,";
    while let Some(start) = html.find(PREFIX) {
        let end = html[start..].find('"').map_or(html.len(), |offset| start + offset);
        html.replace_range(start..end, "<PNG>");
    }
    html
}

#[test]
fn format_graphs_embeds_pngs_and_legends() {
    let input = GraphsInput {
        graph_width: 120,
        tooltip_width: 35,
        cpu: (Some(42), (50, 70)),
        memory: (Some(55), (40, 60)),
        nvidia: None,
        intel: None,
        network: Some((String::from("3M"), String::from("1M"))),
    };
    let png = [137u8, 80, 78, 71];
    let images = GraphImages { cpu: &png, memory: &png, gpu: &png, network: &png };
    let html = graphs_page(&input, &images, &palette(), "", "<header>", None);
    assert!(html.contains("data:image/png;base64,iVBORw=="));
    assert_eq!(html.matches("data:image/png;base64,").count(), 3);
    assert_eq!(html.matches("width=\"120\" height=\"84\"").count(), 3);
    assert_eq!(
        normalize_png_uris(html),
        r#"<div class="tooltip"><header><div style="font-size:6px">&nbsp;</div><div><img src="<PNG>" width="120" height="84"></div><div class="page"><span style="color:rgb(61,174,233)">●</span>&nbsp;<span class="label">CPU usage:</span>&nbsp;<span class="val good">42%</span></div><div style="font-size:16px">&nbsp;</div><div><img src="<PNG>" width="120" height="84"></div><div class="page"><span style="color:rgb(163,102,255)">●</span>&nbsp;<span class="label">Memory usage:</span>&nbsp;<span class="val warn">55%</span></div><div style="font-size:16px">&nbsp;</div><div><img src="<PNG>" width="120" height="84"></div><div class="page"><span style="color:rgb(26,188,156)">●</span>&nbsp;<span class="label">Download:</span>&nbsp;<span class="val">3M</span><br><span style="color:rgb(231,76,60)">●</span>&nbsp;<span class="label">Upload:</span>&nbsp;<span class="val">1M</span></div></div>"#
    );
    let paged = graphs_page(&input, &images, &palette(), "", "", Some((0, 2)));
    assert!(paged.contains("<div class=\"pager\">"));
}

#[test]
fn format_graphs_prefers_nvidia_and_omits_absent_network() {
    let input = GraphsInput {
        graph_width: 120,
        tooltip_width: 0,
        cpu: (None, (50, 70)),
        memory: (None, (40, 60)),
        nvidia: Some(GpuGraph { usage: Some(60), usage_thresholds: (10, 20), decoder: Some(5), decoder_threshold: 1 }),
        intel: Some(GpuGraph { usage: Some(1), usage_thresholds: (80, 90), decoder: Some(1), decoder_threshold: 1 }),
        network: None,
    };
    let png = [1u8, 2, 3];
    let images = GraphImages { cpu: &png, memory: &png, gpu: &png, network: &png };
    let html = graphs_page(&input, &images, &palette(), "", "", None);
    assert_eq!(html.matches("data:image/png;base64,").count(), 3);
    assert!(html.contains(r#"<span class="val crit">60%</span>"#));
    assert!(!html.contains("Download"));
}
