use pirostats::config::{NotificationConfig, NotifyThresholds};
use pirostats::domain::boundary::{
    NotificationError, NotificationFacade, NotificationLog, NotificationPayload, NotificationTimeout, NotificationUrgency,
};
use pirostats::domain::state::{BatteryState, NotificationLatch, NotificationState};
use pirostats::notify::{
    check_and_notify, notifications, sustained, BatteryPeripheralReading, BatterySystemReading, LoadReading,
    NotificationReport, NotifyReadings, NotifySettings,
};

const SECOND: u128 = 1_000_000_000;

struct FakeNotificationFacade {
    calls: Vec<NotificationPayload>,
    results: Vec<Result<(), NotificationError>>,
}

impl FakeNotificationFacade {
    fn new() -> Self {
        FakeNotificationFacade { calls: Vec::new(), results: Vec::new() }
    }

    fn push_result(&mut self, result: Result<(), NotificationError>) {
        self.results.push(result);
    }

    fn calls(&self) -> &[NotificationPayload] {
        &self.calls
    }
}

impl NotificationFacade for FakeNotificationFacade {
    fn send(&mut self, payload: &NotificationPayload) -> Result<(), NotificationError> {
        self.calls.push(payload.clone());
        if self.results.is_empty() {
            Ok(())
        } else {
            self.results.remove(0)
        }
    }
}

fn readings() -> NotifyReadings {
    NotifyReadings {
        cpu_temp: None,
        gpu_temp: None,
        disk_usage: Vec::new(),
        disk_smart: Vec::new(),
        hd_temps: Vec::new(),
        battery_sys: Vec::new(),
        battery_mouse: None,
        battery_kbd: None,
        load_average: None,
        server_ok: None,
    }
}

fn settings() -> NotifySettings {
    NotifySettings {
        enabled: NotificationConfig::default(),
        thresholds: NotifyThresholds::default(),
        labels: Vec::new(),
        notify_labels: Vec::new(),
    }
}

fn disabled_settings() -> NotifySettings {
    NotifySettings {
        enabled: NotificationConfig {
            disk_usage: false,
            disk_smart: false,
            cpu_temp: false,
            gpu_nvidia_temp: false,
            hd_temp: false,
            battery_sys: false,
            battery_mouse: false,
            battery_kbd: false,
            server_check: false,
            load_avg: false,
        },
        ..settings()
    }
}

fn expected(body: &str, icon: &str) -> NotificationPayload {
    NotificationPayload {
        title: "PiroStats".to_owned(),
        body: body.to_owned(),
        icon: icon.to_owned(),
        urgency: NotificationUrgency::Critical,
        timeout: NotificationTimeout::Never,
    }
}

struct Clock {
    now: u128,
}

fn poll_cpu(cfg: &NotifySettings, state: &mut NotificationState, clock: &mut Clock, facade: &mut NotificationLog<FakeNotificationFacade>, temp: i32, advance: u128) {
    clock.now += advance;
    let r = NotifyReadings { cpu_temp: Some(temp), ..readings() };
    let _ = check_and_notify(&r, cfg, state, clock.now, facade);
}

fn flag(table: &[(String, bool)], key: &str) -> Option<bool> {
    table.iter().find(|(k, _)| k == key).map(|(_, v)| *v)
}

#[test]
fn cpu_temp_spike_never_notifies() {
    let mut cfg = disabled_settings();
    cfg.enabled.cpu_temp = true;
    let mut state = NotificationState::default();
    let mut clock = Clock { now: 0 };
    let mut facade = NotificationLog::new(FakeNotificationFacade::new());

    for temp in [50, 82, 50, 84, 50, 91, 50] {
        poll_cpu(&cfg, &mut state, &mut clock, &mut facade, temp, 1_500_000_000);
    }

    assert!(facade.inner.calls().is_empty());
}

#[test]
fn cpu_temp_notifies_once_when_sustained() {
    let mut cfg = disabled_settings();
    cfg.enabled.cpu_temp = true;
    let mut state = NotificationState::default();
    let mut clock = Clock { now: 0 };
    let mut facade = NotificationLog::new(FakeNotificationFacade::new());

    for _ in 0..60 {
        poll_cpu(&cfg, &mut state, &mut clock, &mut facade, 85, 1_500_000_000);
    }

    assert_eq!(facade.inner.calls(), &[expected("Cpu temp 85C", "dialog-error")]);
}

#[test]
fn cpu_temp_hysteresis_recovery_and_retrigger_match_python() {
    let mut cfg = disabled_settings();
    cfg.enabled.cpu_temp = true;
    cfg.thresholds.temp_sustain_seconds = 0;
    let mut state = NotificationState::default();
    let mut clock = Clock { now: 0 };
    let mut facade = NotificationLog::new(FakeNotificationFacade::new());

    for temp in [85, 78, 81, 76, 82, 79, 74, 85] {
        poll_cpu(&cfg, &mut state, &mut clock, &mut facade, temp, SECOND);
    }

    assert_eq!(facade.inner.calls().len(), 2);
}

#[test]
fn cpu_temp_hold_restarts_after_one_dip() {
    let mut cfg = disabled_settings();
    cfg.enabled.cpu_temp = true;
    let mut state = NotificationState::default();
    let mut clock = Clock { now: 0 };
    let mut facade = NotificationLog::new(FakeNotificationFacade::new());

    poll_cpu(&cfg, &mut state, &mut clock, &mut facade, 85, 0);
    poll_cpu(&cfg, &mut state, &mut clock, &mut facade, 70, 59 * SECOND);
    poll_cpu(&cfg, &mut state, &mut clock, &mut facade, 85, SECOND);
    poll_cpu(&cfg, &mut state, &mut clock, &mut facade, 85, 59 * SECOND);

    assert!(facade.inner.calls().is_empty());
    poll_cpu(&cfg, &mut state, &mut clock, &mut facade, 85, SECOND);
    assert_eq!(facade.inner.calls().len(), 1);
}

#[test]
fn sustained_uses_elapsed_monotonic_time_and_fires_once() {
    // value 85 against trip 80 and clear 75: never below either.
    let mut latch = NotificationLatch::default();
    assert!(!sustained(&mut latch, 85 < 80, 85 < 75, 60, 1_000 * SECOND));
    assert!(sustained(&mut latch, 85 < 80, 85 < 75, 60, 1_061 * SECOND));
    assert!(!sustained(&mut latch, 85 < 80, 85 < 75, 60, 1_062 * SECOND));
}

#[test]
fn sustained_without_hysteresis_clears_below_trip() {
    // values 1.0 then 0.89 against trip = clear = 0.9.
    let mut latch = NotificationLatch::default();
    assert!(sustained(&mut latch, 1.0 < 0.9, 1.0 < 0.9, 0, 0));
    assert!(!sustained(&mut latch, 0.89 < 0.9, 0.89 < 0.9, 0, 0));
    assert!(!latch.active);
}

#[test]
fn sustained_hold_boundary_is_exclusive() {
    let mut latch = NotificationLatch::default();
    assert!(!sustained(&mut latch, false, false, 60, 0));
    assert!(!sustained(&mut latch, false, false, 60, 60 * SECOND - 1));
    assert!(sustained(&mut latch, false, false, 60, 60 * SECOND));
    assert_eq!(latch, NotificationLatch { active: true, since: Some(0) });
}

#[test]
fn every_notification_type_emits_exact_ordered_payloads() {
    let mut cfg = settings();
    cfg.enabled.cpu_temp = true;
    cfg.enabled.gpu_nvidia_temp = true;
    cfg.enabled.load_avg = true;
    cfg.enabled.server_check = true;
    cfg.thresholds.temp_sustain_seconds = 0;
    cfg.thresholds.load_avg_minutes = 0;
    // 15-minute load 7.2 over 8 cores is 0.9, not below the 0.9 default.
    let r = NotifyReadings {
        cpu_temp: Some(80),
        gpu_temp: Some(80),
        disk_usage: vec![("/".to_owned(), Some(80))],
        disk_smart: vec![("nvme0".to_owned(), Some(false))],
        hd_temps: vec![("nvme0".to_owned(), Some(60))],
        battery_sys: vec![BatterySystemReading {
            id: "BAT0".to_owned(),
            charge_percent: 10,
            state: BatteryState::Discharging,
        }],
        battery_mouse: Some(BatteryPeripheralReading { name: "MX Master".to_owned(), charge_percent: 19 }),
        battery_kbd: Some(BatteryPeripheralReading { name: String::new(), charge_percent: 19 }),
        load_average: Some(LoadReading { below_threshold: 7.2 / 8.0 < 0.9, fifteen: format!("{:.2}", 7.2) }),
        server_ok: Some(false),
    };
    let mut state = NotificationState::default();
    let mut facade = NotificationLog::new(FakeNotificationFacade::new());

    let report = check_and_notify(&r, &cfg, &mut state, 100 * SECOND, &mut facade);

    assert_eq!(report.attempted, 10);
    assert!(report.failures.is_empty());
    assert_eq!(
        facade.inner.calls(),
        &[
            expected("Cpu temp 80C", "dialog-error"),
            expected("Gpu temp 80C", "dialog-error"),
            expected("Disk / 80%", "dialog-error"),
            expected("Disk nvme0 SMART check FAILED", "dialog-error"),
            expected("Disk nvme0 temp 60C", "dialog-warning"),
            expected("Battery 10%", "battery-caution"),
            expected("MX Master: 19%", "battery-caution"),
            expected("Keyboard: 19%", "battery-caution"),
            expected("Load avg 15m high for 0 min (7.20)", "dialog-warning"),
            expected("Server is not reachable!", "dialog-error"),
        ]
    );
}

#[test]
fn threshold_boundaries_match_inclusive_and_exclusive_python_rules() {
    let mut cfg = disabled_settings();
    cfg.enabled.disk_usage = true;
    cfg.enabled.battery_sys = true;
    cfg.enabled.battery_mouse = true;
    let r = NotifyReadings {
        disk_usage: vec![("/at".to_owned(), Some(80)), ("/below".to_owned(), Some(79))],
        battery_sys: vec![BatterySystemReading {
            id: "BAT0".to_owned(),
            charge_percent: 10,
            state: BatteryState::Discharging,
        }],
        battery_mouse: Some(BatteryPeripheralReading { name: String::new(), charge_percent: 20 }),
        ..readings()
    };
    let mut facade = NotificationLog::new(FakeNotificationFacade::new());

    let _ = check_and_notify(&r, &cfg, &mut NotificationState::default(), 0, &mut facade);

    assert_eq!(facade.inner.calls(), &[expected("Disk /at 80%", "dialog-error"), expected("Battery 10%", "battery-caution")]);
}

#[test]
fn battery_charging_zero_and_disconnected_values_are_excluded() {
    let mut cfg = disabled_settings();
    cfg.enabled.battery_sys = true;
    cfg.enabled.battery_mouse = true;
    cfg.enabled.battery_kbd = true;
    let r = NotifyReadings {
        battery_sys: vec![
            BatterySystemReading { id: "charging".to_owned(), charge_percent: 5, state: BatteryState::Charging },
            BatterySystemReading { id: "zero".to_owned(), charge_percent: 0, state: BatteryState::Discharging },
        ],
        battery_mouse: Some(BatteryPeripheralReading { name: String::new(), charge_percent: 0 }),
        battery_kbd: Some(BatteryPeripheralReading { name: String::new(), charge_percent: 0 }),
        ..readings()
    };
    let mut state = NotificationState::default();
    let mut facade = NotificationLog::new(FakeNotificationFacade::new());

    let _ = check_and_notify(&r, &cfg, &mut state, 0, &mut facade);

    assert!(facade.inner.calls().is_empty());
    assert_eq!(flag(&state.battery_sys, "charging"), Some(false));
    assert_eq!(flag(&state.battery_sys, "zero"), None);
}

#[test]
fn device_latches_are_independent_and_removed_device_state_is_retained() {
    let mut cfg = disabled_settings();
    cfg.enabled.hd_temp = true;
    cfg.thresholds.temp_sustain_seconds = 0;
    let mut r = NotifyReadings { hd_temps: vec![("a".to_owned(), Some(61)), ("b".to_owned(), Some(62))], ..readings() };
    let mut state = NotificationState::default();
    let mut facade = NotificationLog::new(FakeNotificationFacade::new());

    let _ = check_and_notify(&r, &cfg, &mut state, 0, &mut facade);
    r.hd_temps.clear();
    let _ = check_and_notify(&r, &cfg, &mut state, SECOND, &mut facade);
    r.hd_temps.push(("a".to_owned(), Some(61)));
    let _ = check_and_notify(&r, &cfg, &mut state, 2 * SECOND, &mut facade);

    assert_eq!(facade.inner.calls().len(), 2);
    assert!(state.hd_temp.iter().any(|(k, _)| k == "a"));
    assert!(state.hd_temp.iter().any(|(k, _)| k == "b"));
}

#[test]
fn simple_edges_recover_and_retrigger_per_device() {
    let mut cfg = disabled_settings();
    cfg.enabled.disk_usage = true;
    let mut state = NotificationState::default();
    let mut facade = NotificationLog::new(FakeNotificationFacade::new());

    for percent in [80, 90, 79, 80] {
        let r = NotifyReadings { disk_usage: vec![("/".to_owned(), Some(percent))], ..readings() };
        let _ = check_and_notify(&r, &cfg, &mut state, 0, &mut facade);
    }

    assert_eq!(facade.inner.calls().len(), 2);
}

#[test]
fn disabled_and_absent_inputs_leave_state_silent_and_unchanged() {
    let cfg = disabled_settings();
    let mut state = NotificationState { server: true, ..NotificationState::default() };
    state.disk.push(("removed".to_owned(), true));
    let before = state.clone();
    let mut facade = NotificationLog::new(FakeNotificationFacade::new());

    let report = check_and_notify(&readings(), &cfg, &mut state, 0, &mut facade);

    assert_eq!(state, before);
    assert_eq!(report, NotificationReport::default());
    assert!(facade.inner.calls().is_empty());
}

#[test]
fn facade_failure_is_reported_but_does_not_stop_or_rearm_processing() {
    let mut cfg = disabled_settings();
    cfg.enabled.disk_usage = true;
    cfg.enabled.server_check = true;
    let r = NotifyReadings { disk_usage: vec![("/".to_owned(), Some(90))], server_ok: Some(false), ..readings() };
    let mut state = NotificationState::default();
    let mut facade = NotificationLog::new(FakeNotificationFacade::new());
    facade.inner.push_result(Err(NotificationError { detail: "service unavailable".to_owned() }));

    let report = check_and_notify(&r, &cfg, &mut state, 0, &mut facade);
    let second = check_and_notify(&r, &cfg, &mut state, SECOND, &mut facade);

    assert_eq!(report.attempted, 2);
    assert_eq!(report.failures.len(), 1);
    assert_eq!(report.failures[0].payload, expected("Disk / 90%", "dialog-error"));
    assert_eq!(second.attempted, 0);
    assert_eq!(facade.inner.calls().len(), 2);
}

#[test]
fn configured_labels_are_used_in_exact_payload_text() {
    let mut cfg = disabled_settings();
    cfg.enabled.server_check = true;
    cfg.notify_labels.push(("server_down".to_owned(), "Offline".to_owned()));
    let r = NotifyReadings { server_ok: Some(false), ..readings() };
    let mut facade = NotificationLog::new(FakeNotificationFacade::new());

    let _ = check_and_notify(&r, &cfg, &mut NotificationState::default(), 0, &mut facade);

    assert_eq!(facade.inner.calls(), &[expected("Offline", "dialog-error")]);
}

#[test]
fn repeating_a_poll_at_the_same_instant_raises_nothing() {
    let mut cfg = settings();
    cfg.enabled.cpu_temp = true;
    cfg.enabled.server_check = true;
    cfg.thresholds.temp_sustain_seconds = 0;
    let r = NotifyReadings {
        cpu_temp: Some(95),
        disk_usage: vec![("/".to_owned(), Some(99))],
        hd_temps: vec![("sda".to_owned(), Some(70))],
        server_ok: Some(false),
        ..readings()
    };
    let mut state = NotificationState::default();

    let first = notifications(&r, &cfg, &mut state, 5 * SECOND);
    let second = notifications(&r, &cfg, &mut state, 5 * SECOND);

    assert_eq!(first.len(), 4);
    assert!(second.is_empty());
}
