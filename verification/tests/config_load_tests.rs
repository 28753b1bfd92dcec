use pirostats::config::geometry::detect_machine_with_dmi;
use pirostats::config::tables::{
    load_config_text, machine_rules, merge_tables_into, parse_toml, LoadedConfig, TomlValue,
};
use pirostats::config::ConfigError;

fn load_with_dmi(text: Option<&str>, machines: &str, board: &str, product: &str, vertical: bool) -> LoadedConfig {
    let machines = parse_toml(machines).unwrap();
    let machine = detect_machine_with_dmi(&machine_rules(&machines), board, product);
    load_config_text(text, &machines, machine.as_deref(), vertical).unwrap()
}

fn load(text: &str, vertical: bool) -> LoadedConfig {
    load_with_dmi(Some(text), "", "", "", vertical)
}

fn keys(cfg: &LoadedConfig, panel: bool) -> Vec<String> {
    let surface = if panel { &cfg.panel } else { &cfg.tooltip };
    surface.sections.iter().map(|s| s.key.clone()).collect()
}

fn entries(value: TomlValue) -> Vec<(String, TomlValue)> {
    match value {
        TomlValue::Table(t) => t,
        _ => panic!("not a table"),
    }
}

#[test]
fn load_config_missing_path_returns_no_machine() {
    let cfg = load_with_dmi(None, "", "", "", false);
    assert_eq!(cfg.machine, "");
    assert!(cfg.panel.sections.is_empty());
    assert!(!cfg.vertical);
    assert!(cfg.panel.glyphs);
}

#[test]
fn load_config_section_schema() {
    let cfg = load(
        r#"
[tooltip]
order = ["live", "load"]
[tooltip.live]
title = "Live"
items = ["cpu_usage:spark_value", "mem_usage:spark_value"]
[tooltip.load]
title = "Load"
items = ["uptime", "load_avg"]
"#,
        false,
    );
    assert_eq!(keys(&cfg, false), ["live", "load"]);
    assert!(cfg.tooltip.has("uptime"));
    assert_eq!(cfg.tooltip.sections[0].title, "Live");
}

#[test]
fn load_config_drops_unknown_and_misplaced() {
    let cfg = load(
        r#"
[tooltip]
order = ['live']
[tooltip.live]
items = ['cpu_usage', 'cpu_usage:bogus_form', 'totally_bogus']
"#,
        false,
    );
    assert_eq!(cfg.tooltip.sections[0].items, vec![String::from("cpu_usage")]);
}

#[test]
fn load_config_machine_items_add() {
    let cfg = load_with_dmi(
        Some(
            r#"
[tooltip]
order = ["live"]
[tooltip.live]
items = ["cpu_usage:spark_value"]
"#,
        ),
        r#"
[desktop.detect]
board_contains = "ExampleBoard"
[desktop.tooltip.live]
items_add = ["fan_speed"]
"#,
        "ACME ExampleBoard v2",
        "Example Product",
        false,
    );
    assert_eq!(cfg.machine, "desktop");
    assert_eq!(
        cfg.tooltip.sections[0].items,
        vec![String::from("cpu_usage:spark_value"), String::from("fan_speed")],
    );
}

#[test]
fn load_config_machine_order_add_new_section() {
    let cfg = load_with_dmi(
        Some(
            r#"
[panel]
order = ["live"]
[panel.live]
items = ["cpu_usage"]
"#,
        ),
        r#"
[mymachine.detect]
product_contains = "ExampleVM"
[mymachine.panel]
order_add = ["drives"]
[mymachine.panel.drives]
items = ["disk_usage"]
"#,
        "Generic Board",
        "ExampleVM 7",
        false,
    );
    assert_eq!(cfg.machine, "mymachine");
    assert_eq!(keys(&cfg, true), ["live", "drives"]);
    assert!(cfg.panel.has("disk_usage"));
}

const ORIENTED: &str = r#"
[panel]
order = ["cpumem"]
[panel.cpumem]
items = ["cpu_usage", "mem_usage"]
[panel_horizontal.cpumem]
items = ["cpu_usage", "cpu_usage:spark", "mem_usage", "mem_usage:spark"]
[panel_vertical.cpumem]
items = ["cpu_usage", "cpu_usage:bar", "mem_usage", "mem_usage:bar"]
"#;

#[test]
fn load_config_orientation_override_horizontal() {
    let cfg = load(ORIENTED, false);
    assert!(cfg.panel.has("cpu_usage:spark"));
    assert!(cfg.panel.has("mem_usage:spark"));
    assert!(!cfg.panel.has("cpu_usage:bar"));
    assert!(!cfg.vertical);
}

#[test]
fn load_config_orientation_override_vertical() {
    let cfg = load(ORIENTED, true);
    assert!(cfg.panel.has("cpu_usage:bar"));
    assert!(cfg.panel.has("mem_usage:bar"));
    assert!(!cfg.panel.has("cpu_usage:spark"));
    assert!(cfg.vertical);
}

#[test]
fn load_config_warns_on_unknown_item() {
    let cfg = load("[panel]\norder = ['main']\n\n[panel.main]\nitems = ['cpu_usage', 'totally_not_an_item']\n", false);
    assert_eq!(cfg.panel.sections[0].items, vec![String::from("cpu_usage")]);
    assert_eq!(cfg.unknown.0, vec![String::from("totally_not_an_item")]);
}

#[test]
fn config_error_displays_with_source() {
    let err = ConfigError::Io { detail: String::from("missing") };
    assert!(err.message().contains("config I/O failure"));
    let detail = parse_toml("bad =").unwrap_err();
    let err = ConfigError::Toml { detail };
    assert!(err.message().contains("config parse failure"));
    let refused = load_config_text(Some("bad ="), &TomlValue::Table(Vec::new()), None, false);
    assert!(matches!(refused, Err(ConfigError::Toml { .. })));
}

#[test]
fn deep_merge_smoke_keeps_table_via_geometry_module_reexport() {
    let base = entries(parse_toml("[panel]\nitems = [\"a\"]\n").unwrap());
    let over = entries(parse_toml("[panel]\nitems_add = [\"b\"]\n").unwrap());
    let merged = merge_tables_into(base, &over);
    let panel = merged.iter().find(|(k, _)| k == "panel").map(|(_, v)| v).expect("merged panel must exist");
    assert!(matches!(panel, TomlValue::Table(_)));
    assert_eq!(
        panel,
        &TomlValue::Table(vec![(
            String::from("items"),
            TomlValue::Array(vec![TomlValue::Str(String::from("a")), TomlValue::Str(String::from("b"))]),
        )]),
    );
}

#[test]
fn toml_documents_keep_their_values_and_order() {
    let doc = parse_toml("z = 1\na = 0.5\n[t]\nflag = true\nlist = ['x', 2]\n").unwrap();
    assert_eq!(
        doc,
        TomlValue::Table(vec![
            (String::from("z"), TomlValue::Int(1)),
            (String::from("a"), TomlValue::Float(String::from("0.5"))),
            (
                String::from("t"),
                TomlValue::Table(vec![
                    (String::from("flag"), TomlValue::Bool(true)),
                    (
                        String::from("list"),
                        TomlValue::Array(vec![TomlValue::Str(String::from("x")), TomlValue::Int(2)]),
                    ),
                ]),
            ),
        ]),
    );
}

#[test]
fn merging_replaces_scalars_and_merges_tables() {
    let base = entries(parse_toml("a = 1\n[t]\nx = 1\ny = 2\n").unwrap());
    let over = entries(parse_toml("a = 'two'\nn = 3\n[t]\ny = 5\n").unwrap());
    let merged = merge_tables_into(base, &over);
    assert_eq!(
        merged,
        vec![
            (String::from("a"), TomlValue::Str(String::from("two"))),
            (
                String::from("t"),
                TomlValue::Table(vec![(String::from("x"), TomlValue::Int(1)), (String::from("y"), TomlValue::Int(5))]),
            ),
            (String::from("n"), TomlValue::Int(3)),
        ]
    );
}

#[test]
fn machine_rules_read_detect_blocks_in_order() {
    let machines = parse_toml(
        "[laptop.detect]\nboard_contains = 'Example'\n[notes]\nx = 1\n[desktop.detect]\nboard_startswith = 'Z7'\nproduct_contains = 'Tower'\n",
    )
    .unwrap();
    let rules = machine_rules(&machines);
    assert_eq!(rules.len(), 2);
    assert_eq!(rules[0].name, "laptop");
    assert_eq!(rules[0].board_contains.as_deref(), Some("Example"));
    assert_eq!(rules[1].name, "desktop");
    assert_eq!(rules[1].board_startswith.as_deref(), Some("Z7"));
    assert_eq!(rules[1].product_contains.as_deref(), Some("Tower"));
    assert_eq!(detect_machine_with_dmi(&rules, "Z790 board", "Tower"), Some(String::from("desktop")));
}
