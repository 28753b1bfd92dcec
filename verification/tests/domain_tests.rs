use pirostats::domain::boundary::{BoundaryError, BusKind, FilesystemRoots, NotificationError};
use pirostats::domain::form::{Form, Shape, Surface};
use pirostats::domain::metric::Metric;
use pirostats::domain::state::{BatteryState, BatterySystemCache, DaemonStateSnapshot, TimedValue};

#[test]
fn form_defaults_to_value() {
    assert_eq!(Form::default(), Form::Value);
    assert_eq!("".parse::<Form>(), Ok(Form::Value));
}

#[test]
fn panel_forms_stay_out_of_tooltip() {
    assert!(!Form::Bar.allowed_surfaces().contains(Surface::Tooltip));
    assert!(Form::Bar.allowed_surfaces().contains(Surface::PanelHorizontal));
    assert!(Form::Spark.allowed_surfaces().contains(Surface::PanelVertical));
}

#[test]
fn tooltip_only_forms_stay_out_of_panel() {
    let surfaces = Form::SparkValue.allowed_surfaces();

    assert!(surfaces.contains(Surface::Tooltip));
    assert!(!surfaces.contains(Surface::PanelHorizontal));
    assert!(!surfaces.contains(Surface::PanelVertical));
}

#[test]
fn form_tokens_round_trip_and_unknown_tokens_are_refused() {
    for form in Form::all() {
        assert_eq!(form.as_str().parse::<Form>(), Ok(form));
    }
    let err = "sparkle".parse::<Form>().unwrap_err();
    assert_eq!(err.value, "sparkle");
}

#[test]
fn cpu_usage_keeps_historied_forms() {
    let spec = Metric::CpuUsage.spec();

    assert!(spec.generic_forms.contains(&Form::Bar));
    assert!(spec.generic_forms.contains(&Form::SparkValue));
    assert!(!spec.generic_forms.contains(&Form::Pair));
}

#[test]
fn tooltip_only_metric_stays_out_of_panel() {
    let spec = Metric::Uptime.spec();

    assert!(spec.surfaces.contains(Surface::Tooltip));
    assert!(!spec.surfaces.contains(Surface::PanelHorizontal));
    assert!(!spec.surfaces.contains(Surface::PanelVertical));
}

#[test]
fn intrinsic_metrics_keep_shapes() {
    assert_eq!(Metric::NetSpeed.intrinsic_shape(), Some(Shape::Duo));
    assert_eq!(Metric::TopProcess.intrinsic_shape(), Some(Shape::TripleL));
    assert!(!Metric::NetSpeed.supports_form(Form::Value));
}

#[test]
fn parses_known_metric_tokens() {
    assert_eq!("cpu_usage".parse::<Metric>(), Ok(Metric::CpuUsage));
    assert_eq!("server_check".parse::<Metric>(), Ok(Metric::ServerCheck));
}

#[test]
fn metric_tokens_round_trip() {
    for metric in Metric::all() {
        assert_eq!(metric.as_str().parse::<Metric>(), Ok(metric));
    }
    assert!("cpu-usage".parse::<Metric>().is_err());
}

#[test]
fn filesystem_roots_default_to_host_stubs() {
    let roots = FilesystemRoots::default();

    assert_eq!(roots.runtime_root, None);
    assert_eq!(roots.cache_root, None);
    assert_eq!(roots.config_root, None);
    assert_eq!(roots.proc_root, "/proc");
    assert_eq!(roots.sys_root, "/sys");
    assert_eq!(roots.state_root(), None);
}

#[test]
fn filesystem_roots_state_root_joins_state() {
    let roots = FilesystemRoots { runtime_root: Some(String::from("/run/user/1000/pirostats")), ..FilesystemRoots::default() };

    assert_eq!(roots.state_root(), Some(String::from("/run/user/1000/pirostats/state")));
}

#[test]
fn boundary_error_messages_include_context() {
    let command = BoundaryError::CommandNotQueued {
        program: String::from("/bin/false"),
        args: vec![String::from("--flag")],
    };
    let dbus = BoundaryError::DbusCallFailed {
        bus: BusKind::System,
        service: "org.freedesktop.UPower".to_owned(),
        path: "/org/freedesktop/UPower".to_owned(),
        interface: "org.freedesktop.UPower".to_owned(),
        member: "EnumerateDevices".to_owned(),
        detail: "connection lost".to_owned(),
    };

    assert!(command.message().contains("/bin/false"));
    assert!(dbus.message().contains("connection lost"));
}

#[test]
fn boundary_error_messages_are_exact() {
    let failed = BoundaryError::CommandFailed {
        program: String::from("/usr/bin/ss"),
        args: vec![String::from("-4tlnp"), String::from("-H")],
        detail: String::from("timed out"),
    };
    let unqueued = BoundaryError::DbusCallNotQueued {
        bus: BusKind::Session,
        service: "s".to_owned(),
        path: "/p".to_owned(),
        interface: "i".to_owned(),
        member: "m".to_owned(),
    };
    let hid = BoundaryError::HidFailed { path: Some(String::from("/dev/hidraw0")), detail: String::from("busy") };
    let hid_unknown = BoundaryError::HidFailed { path: None, detail: String::from("none found") };

    assert_eq!(failed.message(), "command `/usr/bin/ss` with 2 arg(s) failed: timed out");
    assert_eq!(unqueued.message(), "no fixture reply queued for D-Bus session call `s` `/p` `i` `m`");
    assert_eq!(hid.message(), "HID device `/dev/hidraw0` failed: busy");
    assert_eq!(hid_unknown.message(), "HID device failed: none found");
    assert_eq!(
        BoundaryError::CommandNotQueued { program: String::from("x"), args: Vec::new() }.message(),
        "no fixture reply queued for command `x` with 0 arg(s)"
    );
}

#[test]
fn notification_error_message_names_the_detail() {
    let e = NotificationError { detail: String::from("service unknown") };
    assert_eq!(e.message(), "desktop notification failed: service unknown");
}

#[test]
fn daemon_state_defaults_match_empty_python_state_shape() {
    let state = DaemonStateSnapshot::default();

    assert!(state.cpu_prev_times.is_empty());
    assert!(state.cpu_history.is_empty());
    assert!(state.proc_prev_times.is_empty());
    assert!(state.hd_temp_cache.is_empty());
    assert_eq!(state.active_page, 0);
    assert_eq!(state.page_count, 1);
    assert_eq!(state.last_poll, None);
}

#[test]
fn timed_value_default_is_empty_and_unsampled() {
    let cached = TimedValue::<i32>::default();

    assert_eq!(cached.value, None);
    assert_eq!(cached.sampled_at, None);
}

#[test]
fn battery_cache_defaults_are_unset() {
    let cache = BatterySystemCache::default();

    assert_eq!(cache.charge_percent, None);
    assert_eq!(cache.rate_watts, 0);
    assert_eq!(cache.state, BatteryState::Unknown);
    assert_eq!(cache.sampled_at, None);
}

// ── D-Bus replies ─────────────────────────────────────────────────────────

use pirostats::dbus::{busctl_call_args, normalize_dbus_body, normalize_managed_objects, normalize_properties, JsonValue};
use pirostats::domain::boundary::{DbusArgument, DbusRequest};

fn obj(members: Vec<(&str, JsonValue)>) -> JsonValue {
    JsonValue::Object(members.into_iter().map(|(k, v)| (k.to_string(), v)).collect())
}

fn text(s: &str) -> JsonValue {
    JsonValue::String(s.to_string())
}

fn num(s: &str) -> JsonValue {
    JsonValue::Number(s.to_string())
}

#[test]
fn property_json_normalizes_to_interleaved_pairs() {
    let value = obj(vec![(
        "data",
        JsonValue::Array(vec![obj(vec![
            ("Percentage", obj(vec![("data", num("52.5")), ("type", text("d"))])),
            ("State", obj(vec![("data", num("2")), ("type", text("u"))])),
        ])]),
    )]);

    assert_eq!(normalize_properties(&value), vec!["Percentage", "52.5", "State", "2"]);
}

#[test]
fn managed_object_json_preserves_drive_relation() {
    let value = obj(vec![(
        "data",
        JsonValue::Array(vec![obj(vec![(
            "/block",
            obj(vec![(
                "data",
                obj(vec![(
                    "org.freedesktop.UDisks2.Block",
                    obj(vec![("data", obj(vec![("Drive", obj(vec![("data", text("/drive")), ("type", text("o"))]))]))]),
                )]),
            )]),
        )])]),
    )]);

    assert_eq!(normalize_managed_objects(&value), vec!["/block", "org.freedesktop.UDisks2.Block", "Block.Drive=/drive", ""]);
}

#[test]
fn reply_members_pick_their_reduction() {
    let reply = obj(vec![("data", JsonValue::Array(vec![obj(vec![("type", text("s")), ("data", text("on"))])]))]);
    let nested = obj(vec![("data", JsonValue::Array(vec![num("1"), JsonValue::Array(vec![JsonValue::Bool(true), JsonValue::Null])]))]);

    assert_eq!(normalize_dbus_body("Get", &reply), vec!["on"]);
    assert_eq!(normalize_dbus_body("ListNames", &nested), vec!["1", "true", ""]);
    assert_eq!(normalize_dbus_body("GetAll", &text("x")), Vec::<String>::new());
}

#[test]
fn busctl_arguments_carry_signature_then_values() {
    let request = DbusRequest {
        bus: BusKind::System,
        service: String::from("org.freedesktop.UPower"),
        object_path: String::from("/org/freedesktop/UPower"),
        interface: String::from("org.freedesktop.UPower"),
        member: String::from("EnumerateDevices"),
        arguments: vec![DbusArgument::String(String::from("x")), DbusArgument::EmptyStringVariantDict],
        timeout: None,
    };

    assert_eq!(
        busctl_call_args(&request),
        vec![
            "--system",
            "--json=short",
            "call",
            "org.freedesktop.UPower",
            "/org/freedesktop/UPower",
            "org.freedesktop.UPower",
            "EnumerateDevices",
            "sa{sv}",
            "x",
            "0",
        ]
    );
    let no_args = DbusRequest { arguments: Vec::new(), bus: BusKind::Session, ..request };
    assert_eq!(busctl_call_args(&no_args)[0], "--user");
    assert_eq!(busctl_call_args(&no_args).len(), 7);
}

use pirostats::dbus::{decode_reply, parse_json};

#[test]
fn busctl_json_is_decoded_and_reduced() {
    let parsed = parse_json(br#"{"data":[1,[true,null]],"type":"av"}"#).unwrap();
    assert_eq!(
        parsed,
        obj(vec![
            ("data", JsonValue::Array(vec![num("1"), JsonValue::Array(vec![JsonValue::Bool(true), JsonValue::Null])])),
            ("type", text("av")),
        ])
    );
    let request = DbusRequest {
        bus: BusKind::System,
        service: String::from("org.example"),
        object_path: String::from("/org/example"),
        interface: String::from("org.example.Thing"),
        member: String::from("Get"),
        arguments: Vec::new(),
        timeout: None,
    };
    let body = decode_reply(&request, br#"{"data":[{"type":"s","data":"on"}]}"#).unwrap();
    assert_eq!(body, vec!["on"]);
    match decode_reply(&request, b"not json") {
        Err(BoundaryError::DbusCallFailed { detail, member, .. }) => {
            assert!(detail.starts_with("invalid busctl JSON: "));
            assert_eq!(member, "Get");
        }
        other => panic!("unexpected {other:?}"),
    }
}
