use pirostats::page_commands::connections::{format_connections, proc_name, service_for_port};
use pirostats::page_commands::{
    begin_command, build_pages, command_failure, default_click, ellipsize, finish_command, full_page, page_inner,
    pager_html, strip_terminal_noise, text_to_mono_html, text_width, title_html, top_process_page_rows, CommandLookup,
    CommandPlan, Page, PageColorizer, PageCommandCache, PageCommandSpec, PageEnvironment, PageRenderKind, PageSource,
};

const SECOND: u128 = 1_000_000_000;

const FASTFETCH_STRUCTURE: &str = "OS:Kernel:Loadavg:Uptime:Separator:Chassis:Board:Bios:CPU:GPU:Display:BluetoothRadio:Separator:Memory:Disk:Battery:PowerAdapter:Wifi:LocalIP:DNS:Separator:InitSystem:Shell:LM:DE:WM";

fn page(id: &str) -> Page {
    build_pages(&[String::from(id)])[1]
}

fn chars(s: &str) -> Vec<char> {
    s.chars().collect()
}

fn run_plan(program: &str, args: &[&str]) -> CommandPlan {
    CommandPlan::Run { program: String::from(program), args: args.iter().map(|a| a.to_string()).collect() }
}

#[test]
fn build_pages_keeps_full_and_skips_unknown_ids() {
    let pages = build_pages(&[
        String::from("processes"),
        String::from("nope"),
        String::from("graphs"),
        String::from("processes"),
    ]);

    assert_eq!(pages[0], full_page());
    assert_eq!(pages[1].id, "processes");
    assert_eq!(pages[2].id, "graphs");
    assert_eq!(pages[3].id, "processes");
    assert_eq!(pages.len(), 4);
}

#[test]
fn registry_matches_python_page_metadata() {
    let pages = build_pages(&["processes", "connections", "fastfetch", "cpu_cores", "graphs"].map(String::from));

    assert_eq!(
        pages.iter().map(|page| page.id).collect::<Vec<_>>(),
        ["full", "processes", "connections", "fastfetch", "cpu_cores", "graphs"]
    );
    let connections = pages[2].command().expect("connections command");
    assert_eq!(connections.argv, &["ss", "-4tlnp"]);
    assert_eq!(connections.max_lines, 20);
    assert_eq!(connections.colorize, Some(PageColorizer::Connections));
    let fastfetch = pages[3].command().expect("fastfetch command");
    assert_eq!(fastfetch.ttl_secs, 30);
    assert!(fastfetch.pty);
    assert_eq!(pages[1].render(), Some(PageRenderKind::TopProcess));
    assert_eq!(pages[4].render(), Some(PageRenderKind::CpuCores));
    assert_eq!(pages[5].render(), Some(PageRenderKind::Graphs));
}

#[test]
fn run_command_returns_not_found_without_lookup_hit() {
    let cache = PageCommandCache::new();

    let plan = begin_command(&page("connections"), &CommandLookup::new(), &cache, 5 * SECOND);

    assert_eq!(plan, CommandPlan::Text(String::from("ss: not found")));
}

#[test]
fn run_command_uses_script_when_pty_and_script_available() {
    let fastfetch = page("fastfetch");
    let mut commands = CommandLookup::new();
    commands.insert("fastfetch", "/usr/bin/fastfetch");
    commands.insert("script", "/usr/bin/script");
    let mut cache = PageCommandCache::new();

    let plan = begin_command(&fastfetch, &commands, &cache, SECOND);
    let shell = format!("fastfetch --logo none --structure {FASTFETCH_STRUCTURE}");
    assert_eq!(plan, run_plan("/usr/bin/script", &["-qec", &shell, "/dev/null"]));

    let text = finish_command(&fastfetch, &mut cache, SECOND, "hello\n", "");
    assert_eq!(text, "hello");
}

#[test]
fn run_command_falls_back_to_plain_execution_without_script() {
    let fastfetch = page("fastfetch");
    let mut commands = CommandLookup::new();
    commands.insert("fastfetch", "/usr/bin/fastfetch");
    let mut cache = PageCommandCache::new();

    let plan = begin_command(&fastfetch, &commands, &cache, SECOND);
    assert_eq!(plan, run_plan("/usr/bin/fastfetch", &["--logo", "none", "--structure", FASTFETCH_STRUCTURE]));

    assert_eq!(finish_command(&fastfetch, &mut cache, SECOND, "plain\n", ""), "plain");
}

#[test]
fn run_command_ttl_cache_skips_second_invocation() {
    let fastfetch = page("fastfetch");
    let mut commands = CommandLookup::new();
    commands.insert("fastfetch", "/usr/bin/fastfetch");
    let mut cache = PageCommandCache::new();

    assert!(matches!(begin_command(&fastfetch, &commands, &cache, 5 * SECOND), CommandPlan::Run { .. }));
    let first = finish_command(&fastfetch, &mut cache, 5 * SECOND, "cached\n", "");
    let second = begin_command(&fastfetch, &commands, &cache, 10 * SECOND);

    assert_eq!(first, "cached");
    assert_eq!(second, CommandPlan::Text(String::from("cached")));
}

#[test]
fn run_command_refreshes_at_ttl_boundary() {
    let fastfetch = page("fastfetch");
    let mut commands = CommandLookup::new();
    commands.insert("fastfetch", "/usr/bin/fastfetch");
    let mut cache = PageCommandCache::new();

    assert!(matches!(begin_command(&fastfetch, &commands, &cache, 0), CommandPlan::Run { .. }));
    let first = finish_command(&fastfetch, &mut cache, 0, "first\n", "");
    assert!(matches!(begin_command(&fastfetch, &commands, &cache, 30 * SECOND - 1), CommandPlan::Text(_)));
    assert!(matches!(begin_command(&fastfetch, &commands, &cache, 30 * SECOND), CommandPlan::Run { .. }));
    let second = finish_command(&fastfetch, &mut cache, 30 * SECOND, "second\n", "");

    assert_eq!((first.as_str(), second.as_str()), ("first", "second"));
}

#[test]
fn run_command_surfaces_adapter_failure_with_page_executable() {
    assert_eq!(command_failure(&page("connections"), "timed out"), "ss: timed out");
}

#[test]
fn run_command_uses_stderr_strips_terminal_noise_and_preserves_sgr() {
    let text = finish_command(
        &page("connections"),
        &mut PageCommandCache::new(),
        0,
        "",
        "\r\x1b]0;title\x07\x1b[2K\x1b[31merror\x1b[0m\n\n",
    );

    assert_eq!(text, "\x1b[31merror\x1b[0m");
}

#[test]
fn run_command_reports_empty_output_and_truncates_visible_lines() {
    let page = Page {
        id: "limited",
        label: "Limited",
        source: PageSource::Command(PageCommandSpec {
            argv: &["limited"],
            ttl_secs: 0,
            max_lines: 2,
            pty: false,
            colorize: None,
        }),
        click: default_click(),
    };
    let mut commands = CommandLookup::new();
    commands.insert("limited", "/usr/bin/limited");
    let mut cache = PageCommandCache::new();

    assert_eq!(begin_command(&page, &commands, &cache, 0), run_plan("/usr/bin/limited", &[]));
    let limited = finish_command(&page, &mut cache, 0, "a\nb\nc\n", "");
    assert_eq!(begin_command(&page, &commands, &cache, 0), run_plan("/usr/bin/limited", &[]));
    let empty = finish_command(&page, &mut cache, 0, "\n", "");

    assert_eq!(limited, "a\nb");
    assert_eq!(empty, "limited: no output");
}

#[test]
fn text_to_mono_html_escapes_html_and_preserves_spaces() {
    assert_eq!(text_to_mono_html("a < b\n"), "a&nbsp;&lt;&nbsp;b<br>&nbsp;");
    assert_eq!(ellipsize("abcd", 0), "a…");
    assert_eq!(ellipsize("abcd", 3), "ab…");
}

#[test]
fn ellipsize_keeps_text_that_fits() {
    assert_eq!(ellipsize("abcd", 4), "abcd");
    assert_eq!(ellipsize("", 0), "");
}

#[test]
fn text_width_ignores_sgr_sequences() {
    assert_eq!(text_width("\u{1b}[31mred\u{1b}[0m\nwide"), 4);
}

#[test]
fn strip_terminal_noise_keeps_colour_and_drops_the_rest() {
    assert_eq!(strip_terminal_noise("a\rb\x1b[2Kc\x1b[1;32md"), "abc\x1b[1;32md");
    assert_eq!(strip_terminal_noise("\x1b]0;t\x1b\\x"), "x");
}

fn connections_env() -> PageEnvironment {
    PageEnvironment {
        services_text: String::from("http-alt 8080/tcp\n"),
        cmdlines: vec![(1234, String::from("python3\0/home/user/app.py\0--flag\0"))],
    }
}

#[test]
fn format_connections_resolves_interpreter_cmdline_and_services() {
    let env = connections_env();
    let text = [
        "State Recv-Q Send-Q Local Address:Port Peer Address:Port Process\n",
        "LISTEN 0 128 127.0.0.1:8080 0.0.0.0:* users:((\"python3\",pid=1234,fd=5))\n",
        "LISTEN 0 128 0.0.0.0:5432 0.0.0.0:* -\n",
        "LISTEN 0 128 127.0.0.1:8080 0.0.0.0:* -\n"
    ].concat();

    let (html, width) = format_connections(&text, 24, &env);

    assert_eq!(
        (html.as_str(), width),
        (
            r#"<span class="active">app</span>&nbsp;&nbsp;&nbsp;&nbsp;&nbsp;&nbsp;&nbsp;127.0.0.1:8080&nbsp;<br><span class="warn">postgres</span>&nbsp;&nbsp;&nbsp;&nbsp;<span class="warn">0.0.0.0:5432&nbsp;</span><br><span class="label">http-alt</span>&nbsp;&nbsp;127.0.0.1:8080&nbsp;"#,
            25,
        )
    );
}

#[test]
fn connection_helpers_degrade_for_missing_process_and_unknown_service() {
    let env = PageEnvironment { services_text: String::new(), cmdlines: Vec::new() };

    assert_eq!(proc_name(&chars("python3"), None), chars("python3"));
    assert_eq!(service_for_port(&chars("127.0.0.1:49152"), &chars(&env.services_text)), None);
    assert_eq!(format_connections("malformed\n", 30, &env), (text_to_mono_html("no listening sockets"), 30));
}

#[test]
fn proc_name_uses_script_of_interpreter_cmdline() {
    assert_eq!(proc_name(&chars("python3"), Some(&chars("python3\0/srv/tool.py\0"))), chars("tool"));
    assert_eq!(proc_name(&chars("nginx"), Some(&chars("nginx\0-g\0"))), chars("nginx"));
}

#[test]
fn page_inner_wraps_connections_page_with_pager() {
    let connections = page("connections");
    let mut cache = PageCommandCache::new();
    let text = finish_command(
        &connections,
        &mut cache,
        0,
        "State Recv-Q Send-Q Local Address:Port Peer Address:Port Process\n",
        "",
    );

    let html = page_inner(&connections, 1, 3, 20, &text, &PageEnvironment::default());

    assert!(html.starts_with(r#"<div class="page">"#));
    assert!(html.contains(r#"<div class="pager">"#));
}

#[test]
fn page_inner_fastfetch_matches_python_text_shell() {
    let fastfetch = page("fastfetch");
    let mut cache = PageCommandCache::new();
    let text = finish_command(&fastfetch, &mut cache, 0, "OS:  Arch\nKernel: Linux\n", "");

    let html = page_inner(&fastfetch, 2, 4, 30, &text, &PageEnvironment::default());

    assert_eq!(
        html,
        r#"<div class="page">OS:&nbsp;&nbsp;Arch<br>Kernel:&nbsp;Linux</div><div class="pager">&nbsp;&nbsp;&nbsp;<span class="off">●</span>&nbsp;<span class="off">●</span>&nbsp;<span class="on">●</span>&nbsp;<span class="off">●</span></div>"#
    );
}

#[test]
fn title_and_pager_match_python_shell() {
    assert_eq!(default_click(), &["plasma-systemmonitor"]);
    assert_eq!(top_process_page_rows(), 15);
    assert_eq!(
        title_html(&page("fastfetch")),
        r#"<div><span class="title">SYSTEM INFO</span></div><div width="100%" class="title-rule">&nbsp;</div>"#
    );
    assert_eq!(pager_html(0, 5, 1), "");
    assert_eq!(
        pager_html(1, 11, 3),
        r#"<div class="pager">&nbsp;&nbsp;&nbsp;<span class="off">●</span>&nbsp;<span class="on">●</span>&nbsp;<span class="off">●</span></div>"#
    );
}
