use pirostats::config::assets::{compute_code_root, compute_home_dir, compute_xdg_dir, parent_or_dot, shipped_config};
use pirostats::config::geometry::{
    applet_root_containment, detect_machine_with_dmi, detect_vertical_from_appletsrc_text, parse_kde_ini,
    MachineRule,
};
use pirostats::config::{drop_misplaced_items, drop_unknown_items, NotificationConfig, Section, Surface};
use pirostats::domain::registry::{misplaced_items, unknown_item_names};

fn strings(items: &[&str]) -> Vec<String> {
    items.iter().map(|s| s.to_string()).collect()
}

// ── assets ────────────────────────────────────────────────────────────────

#[test]
fn compute_code_root_uses_override_when_set() {
    let resolved = compute_code_root(Some("/usr/lib/pirostats"), "/build/pirostats/rust");

    assert_eq!(resolved, "/usr/lib/pirostats");
}

#[test]
fn compute_code_root_treats_empty_override_as_unset() {
    let resolved = compute_code_root(Some(""), "/build/pirostats/rust");

    assert!(!resolved.is_empty());
    assert_eq!(resolved, "/build/pirostats/rust/..");
}

#[test]
fn compute_code_root_uses_compile_time_default_when_unset() {
    let resolved = compute_code_root(None, "/build/pirostats/rust");

    assert!(resolved.ends_with(".."), "default code root is the build root, got {resolved}");
}

#[test]
fn compute_home_dir_uses_home_env() {
    assert_eq!(compute_home_dir(Some("/home/test")), "/home/test");
}

#[test]
fn compute_home_dir_falls_back_to_root_when_unset() {
    assert_eq!(compute_home_dir(None), "/");
    assert_eq!(compute_home_dir(Some("")), "/");
}

#[test]
fn compute_xdg_dir_honors_xdg_config_home() {
    let resolved = compute_xdg_dir(Some("/custom/xdg"), Some("/home/test"));

    assert_eq!(resolved, "/custom/xdg/pirostats");
}

#[test]
fn compute_xdg_dir_falls_back_to_home_config() {
    let resolved = compute_xdg_dir(None, Some("/home/test"));

    assert_eq!(resolved, "/home/test/.config/pirostats");
}

#[test]
fn compute_xdg_dir_treats_empty_xdg_as_unset() {
    let resolved = compute_xdg_dir(Some(""), Some("/home/test"));

    assert_eq!(resolved, "/home/test/.config/pirostats");
}

#[test]
fn parent_or_dot_matches_python_pathlib_parent() {
    assert_eq!(parent_or_dot("/a/b/c.toml"), "/a/b");
    assert_eq!(parent_or_dot("c.toml"), ".");
    assert_eq!(parent_or_dot("./c.toml"), ".");
}

#[test]
fn parent_or_dot_of_root_and_trailing_slash() {
    assert_eq!(parent_or_dot("/"), ".");
    assert_eq!(parent_or_dot("/a/b/"), "/a");
}

#[test]
fn shipped_config_lives_under_code_root() {
    assert_eq!(shipped_config("/usr/lib/pirostats"), "/usr/lib/pirostats/config/config.toml");
}

// ── geometry: machine detection ───────────────────────────────────────────

fn rule(name: &str, board_contains: Option<&str>, board_startswith: Option<&str>, product_contains: Option<&str>) -> MachineRule {
    MachineRule {
        name: name.to_string(),
        board_contains: board_contains.map(str::to_string),
        board_startswith: board_startswith.map(str::to_string),
        product_contains: product_contains.map(str::to_string),
    }
}

#[test]
fn detect_machine_with_dmi_board_contains_match() {
    let machines = vec![
        rule("desktop", Some("Z790"), None, None),
        rule("laptop", Some("Example"), None, None),
    ];

    assert_eq!(
        detect_machine_with_dmi(&machines, "ABC-1234 Example Board", "Example Laptop 15"),
        Some("laptop".to_owned()),
    );
}

#[test]
fn detect_machine_with_dmi_no_match_returns_none() {
    let machines = vec![rule("laptop", Some("Example"), None, None)];

    assert_eq!(detect_machine_with_dmi(&machines, "Some Board", "Some Product"), None);
}

#[test]
fn detect_machine_with_dmi_product_contains_match() {
    let machines = vec![rule("vm", None, None, Some("ExampleVM"))];

    assert_eq!(
        detect_machine_with_dmi(&machines, "Generic Board", "ExampleVM 7"),
        Some("vm".to_owned()),
    );
}

#[test]
fn detect_machine_with_dmi_board_startswith_match() {
    let machines = vec![rule("box", None, Some("PRIME"), None)];

    assert_eq!(detect_machine_with_dmi(&machines, "PRIME Z790", "Whatever"), Some("box".to_owned()));
}

#[test]
fn detect_machine_with_dmi_ignores_non_dict_entries() {
    // A block without detection keys never matches.
    let machines = vec![rule("not_a_machine", None, None, None)];

    assert_eq!(detect_machine_with_dmi(&machines, "Some Board", "Some Product"), None);
}

#[test]
fn detect_machine_with_dmi_ignores_empty_detect_keys() {
    let machines = vec![rule("empty", Some(""), None, None)];

    assert_eq!(
        detect_machine_with_dmi(&machines, "Anything", "Anything"),
        None,
        "empty board_contains must not match every board",
    );
}

#[test]
fn detect_machine_with_dmi_returns_none_on_empty_machines() {
    assert_eq!(detect_machine_with_dmi(&[], "Anything", "Anything"), None);
}

#[test]
fn detect_machine_with_dmi_startswith_is_anchored() {
    let machines = vec![rule("box", None, Some("PRIME"), None)];

    assert_eq!(detect_machine_with_dmi(&machines, "ASUS PRIME Z790", "Whatever"), None);
}

// ── geometry: kde ini and applet roots ────────────────────────────────────

#[test]
fn parse_kde_ini_splits_headers_and_keyvals() {
    let text = "[Containments][2]\nlocation=5\nplugin=panel\n[Containments][2][Applets][7]\nplugin=foo\n";

    let sections = parse_kde_ini(text);

    assert_eq!(sections.get("[Containments][2]").unwrap().get("location"), Some(&"5".to_owned()));
    assert_eq!(
        sections.get("[Containments][2][Applets][7]").unwrap().get("plugin"),
        Some(&"foo".to_owned()),
    );
}

#[test]
fn parse_kde_ini_later_keys_win_and_unknown_headers_are_absent() {
    let text = "[A]\nk=1\n[B]\nk=2\n[A]\nk=3\n";

    let sections = parse_kde_ini(text);

    assert_eq!(sections.get("[A]").unwrap().get("k"), Some(&"3".to_owned()));
    assert_eq!(sections.get("[B]").unwrap().get("k"), Some(&"2".to_owned()));
    assert!(sections.get("[C]").is_none());
}

#[test]
fn applet_root_matches_target_applet_levels() {
    assert_eq!(applet_root_containment("[Containments][2][Applets][25]").as_deref(), Some("2"));
    assert_eq!(
        applet_root_containment("[Containments][10][Applets][3][Applets][99]").as_deref(),
        Some("10"),
    );
}

#[test]
fn applet_root_rejects_non_applet_levels() {
    assert_eq!(applet_root_containment("[Containments][2]"), None);
    assert_eq!(applet_root_containment("[Containments][2][General]"), None);
    assert_eq!(
        applet_root_containment("[Containments][abc][Applets][1]"),
        None,
        "non-digit containment must not match",
    );
    assert_eq!(applet_root_containment("[Containments][2][Applets][xyz]"), None);
    assert_eq!(applet_root_containment(""), None);
    assert_eq!(applet_root_containment("[Other][2][Applets][1]"), None);
}

#[test]
fn detect_vertical_from_appletsrc_text_defaults_vertical_with_no_applet() {
    assert!(detect_vertical_from_appletsrc_text(""));
    assert!(detect_vertical_from_appletsrc_text("[Containments][2]\nlocation=4\nplugin=panel\n"));
}

#[test]
fn detect_vertical_from_appletsrc_text_reads_panel_edge_horizontal() {
    let text = "[Containments][2]\nlocation=4\n\
                [Containments][2][Applets][7]\nplugin=com.github.bogdan-d.plasma-top\n";

    assert!(!detect_vertical_from_appletsrc_text(text));
}

#[test]
fn detect_vertical_from_appletsrc_text_reads_panel_edge_vertical() {
    let text = "[Containments][2]\nlocation=5\n\
                [Containments][2][Applets][7]\nplugin=com.github.bogdan-d.plasma-top\n";

    assert!(detect_vertical_from_appletsrc_text(text));
}

#[test]
fn detect_vertical_from_appletsrc_text_unknown_location_defaults_vertical() {
    let text = "[Containments][2]\nlocation=99\n\
                [Containments][2][Applets][7]\nplugin=com.github.bogdan-d.plasma-top\n";

    assert!(detect_vertical_from_appletsrc_text(text));
}

// ── config sections ───────────────────────────────────────────────────────

#[test]
fn notifications_defaults_match_python() {
    let n = NotificationConfig::default();
    assert!(n.disk_usage);
    assert!(!n.cpu_temp);
    assert!(!n.gpu_nvidia_temp);
    assert!(!n.server_check);
    assert!(!n.load_avg);
}

#[test]
fn surface_glyphs_defaults_true() {
    assert!(Surface::default().glyphs);
}

#[test]
fn surface_has_and_item_set_empty() {
    let s = Surface::default();
    assert!(!s.has("anything"));
    assert!(s.item_set().is_empty());
}

#[test]
fn surface_has_finds_items_of_any_section() {
    let mut s = Surface::default();
    s.sections.push(Section { key: "a".to_string(), title: String::new(), items: strings(&["uptime"]) });
    s.sections.push(Section {
        key: "b".to_string(),
        title: String::new(),
        items: strings(&["cpu_usage", "uptime"]),
    });

    assert!(s.has("cpu_usage"));
    assert!(!s.has("mem_usage"));
    assert_eq!(s.item_set(), strings(&["cpu_usage", "uptime"]));
}

fn live(items: &[&str]) -> Section {
    Section { key: String::from("live"), title: String::new(), items: strings(items) }
}

#[test]
fn drop_unknown_items_removes_typos_only() {
    let mut panel = Surface::default();
    let mut tooltip = Surface::default();
    tooltip.sections.push(live(&["cpu_usage", "cpu_usage:bogus_form", "totally_bogus"]));

    let (bad_panel, bad_tooltip) = drop_unknown_items(&mut panel, &mut tooltip);

    assert_eq!(tooltip.sections[0].items, vec![String::from("cpu_usage")]);
    assert!(bad_panel.is_empty());
    assert_eq!(bad_tooltip, strings(&["cpu_usage:bogus_form", "totally_bogus"]));
}

#[test]
fn drop_unknown_items_spares_separators() {
    let mut panel = Surface::default();
    let mut tooltip = Surface::default();
    tooltip.sections.push(live(&["cpu_usage", "separator_small", "separator_big", "nope"]));

    drop_unknown_items(&mut panel, &mut tooltip);

    assert_eq!(
        tooltip.sections[0].items,
        vec![String::from("cpu_usage"), String::from("separator_small"), String::from("separator_big")],
    );
}

#[test]
fn drop_misplaced_items_removes_panel_only_from_tooltip() {
    let mut panel = Surface::default();
    let mut tooltip = Surface::default();
    tooltip.sections.push(live(&["cpu_usage:spark", "cpu_usage", "mem_usage:bar"]));

    drop_misplaced_items(&mut panel, &mut tooltip);

    assert_eq!(tooltip.sections[0].items, vec![String::from("cpu_usage")]);
}

#[test]
fn drop_misplaced_items_removes_tooltip_only_from_panel() {
    let mut panel = Surface::default();
    let mut tooltip = Surface::default();
    panel.sections.push(live(&["uptime", "cpu_usage", "net_speed"]));

    drop_misplaced_items(&mut panel, &mut tooltip);

    assert_eq!(panel.sections[0].items, vec![String::from("cpu_usage"), String::from("net_speed")]);
}

#[test]
fn drop_misplaced_items_leaves_a_section_empty_rather_than_absent() {
    let mut panel = Surface::default();
    let mut tooltip = Surface::default();
    tooltip.sections.push(live(&["cpu_usage:spark"]));

    drop_misplaced_items(&mut panel, &mut tooltip);

    // The section is preserved but empty: the render collapses it.
    assert_eq!(tooltip.sections.len(), 1);
    assert!(tooltip.sections[0].items.is_empty());
}

#[test]
fn unknown_item_names_flags_only_unknowns() {
    assert_eq!(unknown_item_names(&["cpu_usage", "disk_usage", "bogus_item"]), strings(&["bogus_item"]));
    assert!(unknown_item_names(&["cpu_usage", "hd_temp"]).is_empty());
}

#[test]
fn unknown_item_names_are_sorted_and_distinct() {
    assert_eq!(unknown_item_names(&["zz", "aa", "zz", "separator_big"]), strings(&["aa", "zz"]));
}

#[test]
fn misplaced_items_filters_panel_only_out_of_tooltip() {
    let (bad_panel, bad_tooltip) = misplaced_items(
        &["cpu_usage", "cpu_usage:spark_value", "top_process"],
        &["cpu_usage", "net_device_ip"],
    );
    assert_eq!(bad_panel, strings(&["cpu_usage:spark_value", "top_process"]));
    assert!(bad_tooltip.is_empty());
}
