//! Edge-triggered desktop notifications: which alerts one poll raises, in
//! which order, and the edge state carried to the next poll.

use vstd::prelude::*;

use crate::config::{NotificationConfig, NotifyThresholds};
use crate::domain::boundary::{
    NotificationError, NotificationFacade, NotificationLog, NotificationPayload, NotificationTimeout, NotificationUrgency,
};
use crate::domain::state::{BatteryState, NotificationLatch, NotificationState};
use crate::table::{entries_map, find_entry, map_or, set_entry, text_or, text_or_else};
use crate::text::{owned, push_i64, push_str, signed_decimal};

verus! {

broadcast use vstd::string::group_string_axioms;

/// A system battery as the alerts read it.
#[derive(Debug, Clone, PartialEq, Eq)]
pub struct BatterySystemReading {
    /// Battery id (`BAT0`, ...).
    pub id: String,
    /// Visible charge percentage; 0 when unknown.
    pub charge_percent: i32,
    /// Charging state.
    pub state: BatteryState,
}

/// A peripheral battery as the alerts read it.
#[derive(Debug, Clone, PartialEq, Eq)]
pub struct BatteryPeripheralReading {
    /// Device model name; empty when unknown.
    pub name: String,
    /// Visible charge percentage; 0 when disconnected.
    pub charge_percent: i32,
}

/// The 15-minute load average as the alert reads it: whether the load per
/// core is below the configured fraction, and the load with two decimals.
#[derive(Debug, Clone, PartialEq, Eq)]
pub struct LoadReading {
    /// The load per core is below the configured fraction.
    pub below_threshold: bool,
    /// The 15-minute load printed with two decimals.
    pub fifteen: String,
}

/// The readings of one poll that the alerts look at. Per-device readings
/// come in key order; `None` is a device whose reading failed.
#[derive(Debug, Clone, PartialEq, Eq)]
pub struct NotifyReadings {
    /// CPU package temperature.
    pub cpu_temp: Option<i32>,
    /// GPU temperature.
    pub gpu_temp: Option<i32>,
    /// Used percentage of each mount.
    pub disk_usage: Vec<(String, Option<i32>)>,
    /// SMART health of each disk.
    pub disk_smart: Vec<(String, Option<bool>)>,
    /// Temperature of each disk.
    pub hd_temps: Vec<(String, Option<i32>)>,
    /// System batteries.
    pub battery_sys: Vec<BatterySystemReading>,
    /// Mouse battery.
    pub battery_mouse: Option<BatteryPeripheralReading>,
    /// Keyboard battery.
    pub battery_kbd: Option<BatteryPeripheralReading>,
    /// Load average.
    pub load_average: Option<LoadReading>,
    /// Whether the checked server answered.
    pub server_ok: Option<bool>,
}

/// What the alerts take from the configuration: the enable flags, the
/// thresholds, and the string entries of the label table and of its
/// `notify` sub-table.
#[derive(Debug, Clone, PartialEq, Eq)]
pub struct NotifySettings {
    /// Which alerts are enabled.
    pub enabled: NotificationConfig,
    /// Alert thresholds.
    pub thresholds: NotifyThresholds,
    /// String entries of the label table.
    pub labels: Vec<(String, String)>,
    /// String entries of the label table's `notify` sub-table.
    pub notify_labels: Vec<(String, String)>,
}

/// One desktop-service failure of a notification pass.
#[derive(Debug, Clone, PartialEq, Eq)]
pub struct NotificationFailure {
    /// The payload whose delivery failed; its state transition stands.
    pub payload: NotificationPayload,
    /// The failure the notifier returned.
    pub error: NotificationError,
}

/// Outcome of one notification pass.
#[derive(Debug, Clone, PartialEq, Eq, Default)]
pub struct NotificationReport {
    /// Number of sends attempted.
    pub attempted: usize,
    /// Failed sends, in order; later alerts were still sent.
    pub failures: Vec<NotificationFailure>,
}

// ── Model ──────────────────────────────────────────────────────────────────

/// A payload as values: title, body, icon, urgency, timeout.
pub type AlertView = (Seq<char>, Seq<char>, Seq<char>, NotificationUrgency, NotificationTimeout);

/// A payload's values.
pub open spec fn alert_view(p: NotificationPayload) -> AlertView {
    (p.title@, p.body@, p.icon@, p.urgency, p.timeout)
}

/// The values of a sequence of payloads.
pub open spec fn alert_views(s: Seq<NotificationPayload>) -> Seq<AlertView> {
    Seq::new(s.len(), |i: int| alert_view(s[i]))
}

/// Every alert: titled `PiroStats`, critical, kept until dismissed.
pub open spec fn alert(body: Seq<char>, icon: Seq<char>) -> AlertView {
    ("PiroStats"@, body, icon, NotificationUrgency::Critical, NotificationTimeout::Never)
}

/// The edge state as values: latches, and per-device flags keyed by name.
pub struct NotifyModel {
    /// CPU temperature latch.
    pub cpu_temp: NotificationLatch,
    /// GPU temperature latch.
    pub gpu_nvidia_temp: NotificationLatch,
    /// Mount over its usage threshold.
    pub disk: Map<Seq<char>, bool>,
    /// Disk failing SMART.
    pub disk_smart: Map<Seq<char>, bool>,
    /// Disk temperature latches.
    pub hd_temp: Map<Seq<char>, NotificationLatch>,
    /// System battery low.
    pub battery_sys: Map<Seq<char>, bool>,
    /// Mouse battery low.
    pub battery_mouse: bool,
    /// Keyboard battery low.
    pub battery_kbd: bool,
    /// Load-average latch.
    pub load_avg: NotificationLatch,
    /// Server down.
    pub server: bool,
}

/// The values of a notification state.
pub open spec fn state_model(s: NotificationState) -> NotifyModel {
    NotifyModel {
        cpu_temp: s.cpu_temp,
        gpu_nvidia_temp: s.gpu_nvidia_temp,
        disk: entries_map(s.disk@),
        disk_smart: entries_map(s.disk_smart@),
        hd_temp: entries_map(s.hd_temp@),
        battery_sys: entries_map(s.battery_sys@),
        battery_mouse: s.battery_mouse,
        battery_kbd: s.battery_kbd,
        load_avg: s.load_avg,
        server: s.server,
    }
}

/// The latch before anything happened.
pub open spec fn idle_latch() -> NotificationLatch {
    NotificationLatch { active: false, since: None }
}

/// One step of a sustained alert at monotonic time `now` (nanoseconds):
/// a fired latch re-arms once the value is below the clear point; an armed
/// one forgets its start when the value is below the trip point, else fires
/// once the value has stayed over it for `hold` seconds (at once for a hold
/// of zero or less). Returns the new latch and whether it fired.
pub open spec fn latch_step(l: NotificationLatch, below_trip: bool, below_clear: bool, hold: int, now: nat) -> (NotificationLatch, bool) {
    if l.active {
        if below_clear {
            (idle_latch(), false)
        } else {
            (l, false)
        }
    } else if below_trip {
        (idle_latch(), false)
    } else {
        let since: nat = match l.since {
            Some(s) => s as nat,
            None => now,
        };
        let elapsed: int = if now >= since {
            now - since
        } else {
            0
        };
        if hold > 0 && elapsed < hold * 1_000_000_000 {
            (NotificationLatch { active: false, since: Some(since as u128) }, false)
        } else {
            (NotificationLatch { active: true, since: Some(since as u128) }, true)
        }
    }
}

/// A temperature alert: trips at `trip`, clears below `trip - cool`.
pub open spec fn temp_alert(l: NotificationLatch, temp: int, trip: int, cool: int, hold: int, now: nat, word: Seq<char>) -> (NotificationLatch, Seq<AlertView>) {
    let st = latch_step(l, temp < trip, temp < trip - cool, hold, now);
    (st.0, if st.1 {
        seq![alert(word + " "@ + signed_decimal(temp) + "C"@, "dialog-error"@)]
    } else {
        Seq::empty()
    })
}

/// Disk-usage alerts over mounts in order: a mount alerts when it reaches
/// the threshold and was not over before; unread mounts are skipped.
pub open spec fn disk_fold(m: Map<Seq<char>, bool>, e: Seq<(String, Option<i32>)>, thr: int, word: Seq<char>) -> (Map<Seq<char>, bool>, Seq<AlertView>)
    decreases e.len(),
{
    if e.len() == 0 {
        (m, Seq::empty())
    } else {
        let prev = disk_fold(m, e.drop_last(), thr, word);
        let x = e.last();
        match x.1 {
            None => prev,
            Some(p) => {
                let over = p >= thr;
                let was = map_or(prev.0, x.0@, false);
                (prev.0.insert(x.0@, over), if over && !was {
                    prev.1.push(alert(word + " "@ + x.0@ + " "@ + signed_decimal(p as int) + "%"@, "dialog-error"@))
                } else {
                    prev.1
                })
            },
        }
    }
}

/// SMART alerts over disks in order: a disk alerts when it turns unhealthy.
pub open spec fn smart_fold(m: Map<Seq<char>, bool>, e: Seq<(String, Option<bool>)>, word: Seq<char>, fail: Seq<char>) -> (Map<Seq<char>, bool>, Seq<AlertView>)
    decreases e.len(),
{
    if e.len() == 0 {
        (m, Seq::empty())
    } else {
        let prev = smart_fold(m, e.drop_last(), word, fail);
        let x = e.last();
        match x.1 {
            None => prev,
            Some(healthy) => {
                let bad = !healthy;
                let was = map_or(prev.0, x.0@, false);
                (prev.0.insert(x.0@, bad), if bad && !was {
                    prev.1.push(alert(word + " "@ + x.0@ + " "@ + fail, "dialog-error"@))
                } else {
                    prev.1
                })
            },
        }
    }
}

/// Disk-temperature alerts over disks in order, one latch per disk; a read
/// disk gets a latch even when it does not alert.
pub open spec fn hd_fold(
    m: Map<Seq<char>, NotificationLatch>,
    e: Seq<(String, Option<i32>)>,
    trip: int,
    cool: int,
    hold: int,
    now: nat,
    word: Seq<char>,
) -> (Map<Seq<char>, NotificationLatch>, Seq<AlertView>)
    decreases e.len(),
{
    if e.len() == 0 {
        (m, Seq::empty())
    } else {
        let prev = hd_fold(m, e.drop_last(), trip, cool, hold, now, word);
        let x = e.last();
        match x.1 {
            None => prev,
            Some(t) => {
                let st = latch_step(map_or(prev.0, x.0@, idle_latch()), t < trip, t < trip - cool, hold, now);
                (prev.0.insert(x.0@, st.0), if st.1 {
                    prev.1.push(alert(word + " "@ + x.0@ + " temp "@ + signed_decimal(t as int) + "C"@, "dialog-warning"@))
                } else {
                    prev.1
                })
            },
        }
    }
}

/// System-battery alerts in order: a battery with a known charge is low
/// when not charging and at or under the threshold, and alerts when it
/// turns low.
pub open spec fn battery_fold(m: Map<Seq<char>, bool>, e: Seq<BatterySystemReading>, thr: int, word: Seq<char>) -> (Map<Seq<char>, bool>, Seq<AlertView>)
    decreases e.len(),
{
    if e.len() == 0 {
        (m, Seq::empty())
    } else {
        let prev = battery_fold(m, e.drop_last(), thr, word);
        let b = e.last();
        if b.charge_percent == 0 {
            prev
        } else {
            let over = b.state != BatteryState::Charging && b.charge_percent > 0 && b.charge_percent <= thr;
            let was = map_or(prev.0, b.id@, false);
            (prev.0.insert(b.id@, over), if over && !was {
                prev.1.push(alert(word + " "@ + signed_decimal(b.charge_percent as int) + "%"@, "battery-caution"@))
            } else {
                prev.1
            })
        }
    }
}

/// A peripheral-battery alert: a connected battery is low under the
/// threshold and alerts when it turns low, named by its model or `fallback`.
pub open spec fn peripheral_step(was: bool, b: Option<BatteryPeripheralReading>, thr: int, fallback: Seq<char>) -> (bool, Seq<AlertView>) {
    match b {
        None => (was, Seq::empty()),
        Some(b) => if b.charge_percent == 0 {
            (was, Seq::empty())
        } else {
            let over = b.charge_percent > 0 && b.charge_percent < thr;
            let name = if b.name@.len() == 0 {
                fallback
            } else {
                b.name@
            };
            (over, if over && !was {
                seq![alert(name + ": "@ + signed_decimal(b.charge_percent as int) + "%"@, "battery-caution"@)]
            } else {
                Seq::empty()
            })
        },
    }
}

/// The load-average alert: fires once the load per core has stayed at or
/// over the fraction for `minutes` minutes, re-arms below it.
pub open spec fn load_step(l: NotificationLatch, r: Option<LoadReading>, minutes: int, now: nat, word: Seq<char>, high_for: Seq<char>) -> (NotificationLatch, Seq<AlertView>) {
    match r {
        None => (l, Seq::empty()),
        Some(x) => {
            let st = latch_step(l, x.below_threshold, x.below_threshold, minutes * 60, now);
            (st.0, if st.1 {
                seq![
                    alert(
                        word + " 15m "@ + high_for + " "@ + signed_decimal(minutes) + " min ("@ + x.fifteen@ + ")"@,
                        "dialog-warning"@,
                    ),
                ]
            } else {
                Seq::empty()
            })
        },
    }
}

/// The server alert: fires when the server turns unreachable.
pub open spec fn server_step(was: bool, ok: Option<bool>, text: Seq<char>) -> (bool, Seq<AlertView>) {
    match ok {
        None => (was, Seq::empty()),
        Some(ok) => (!ok, if !ok && !was {
            seq![alert(text, "dialog-error"@)]
        } else {
            Seq::empty()
        }),
    }
}

/// The CPU temperature step of a pass.
#[verifier::opaque]
pub open spec fn cpu_part(m: NotifyModel, r: NotifyReadings, c: NotifySettings, now: nat) -> (NotificationLatch, Seq<AlertView>) {
    if c.enabled.cpu_temp && r.cpu_temp is Some {
        temp_alert(
            m.cpu_temp,
            r.cpu_temp->0 as int,
            c.thresholds.cpu_temp as int,
            c.thresholds.temp_hysteresis as int,
            c.thresholds.temp_sustain_seconds as int,
            now,
            text_or(c.labels@, "cpu_temp"@, "Cpu temp"@),
        )
    } else {
        (m.cpu_temp, Seq::empty())
    }
}

/// The GPU temperature step of a pass.
#[verifier::opaque]
pub open spec fn gpu_part(m: NotifyModel, r: NotifyReadings, c: NotifySettings, now: nat) -> (NotificationLatch, Seq<AlertView>) {
    if c.enabled.gpu_nvidia_temp && r.gpu_temp is Some {
        temp_alert(
            m.gpu_nvidia_temp,
            r.gpu_temp->0 as int,
            c.thresholds.gpu_nvidia_temp as int,
            c.thresholds.temp_hysteresis as int,
            c.thresholds.temp_sustain_seconds as int,
            now,
            text_or(c.labels@, "gpu_nvidia_temp"@, "Gpu temp"@),
        )
    } else {
        (m.gpu_nvidia_temp, Seq::empty())
    }
}

/// The disk-usage step of a pass.
#[verifier::opaque]
pub open spec fn disk_part(m: NotifyModel, r: NotifyReadings, c: NotifySettings) -> (Map<Seq<char>, bool>, Seq<AlertView>) {
    if c.enabled.disk_usage {
        disk_fold(m.disk, r.disk_usage@, c.thresholds.disk_usage as int, text_or(c.notify_labels@, "disk_usage"@, "Disk"@))
    } else {
        (m.disk, Seq::empty())
    }
}

/// The SMART step of a pass.
#[verifier::opaque]
pub open spec fn smart_part(m: NotifyModel, r: NotifyReadings, c: NotifySettings) -> (Map<Seq<char>, bool>, Seq<AlertView>) {
    if c.enabled.disk_smart {
        smart_fold(
            m.disk_smart,
            r.disk_smart@,
            text_or(c.notify_labels@, "disk_smart"@, "Disk"@),
            text_or(c.notify_labels@, "smart_fail"@, "SMART check FAILED"@),
        )
    } else {
        (m.disk_smart, Seq::empty())
    }
}

/// The disk-temperature step of a pass.
#[verifier::opaque]
pub open spec fn hd_part(m: NotifyModel, r: NotifyReadings, c: NotifySettings, now: nat) -> (Map<Seq<char>, NotificationLatch>, Seq<AlertView>) {
    if c.enabled.hd_temp {
        hd_fold(
            m.hd_temp,
            r.hd_temps@,
            c.thresholds.hd_temp as int,
            c.thresholds.temp_hysteresis as int,
            c.thresholds.temp_sustain_seconds as int,
            now,
            text_or(c.labels@, "hd_temp"@, "Disk"@),
        )
    } else {
        (m.hd_temp, Seq::empty())
    }
}

/// The system-battery step of a pass.
#[verifier::opaque]
pub open spec fn battery_part(m: NotifyModel, r: NotifyReadings, c: NotifySettings) -> (Map<Seq<char>, bool>, Seq<AlertView>) {
    if c.enabled.battery_sys {
        battery_fold(m.battery_sys, r.battery_sys@, c.thresholds.battery_sys as int, text_or(c.labels@, "battery_sys"@, "Battery"@))
    } else {
        (m.battery_sys, Seq::empty())
    }
}

/// The mouse-battery step of a pass.
#[verifier::opaque]
pub open spec fn mouse_part(m: NotifyModel, r: NotifyReadings, c: NotifySettings) -> (bool, Seq<AlertView>) {
    if c.enabled.battery_mouse {
        peripheral_step(m.battery_mouse, r.battery_mouse, c.thresholds.battery_mouse as int, text_or(c.labels@, "battery_mouse"@, "Mouse"@))
    } else {
        (m.battery_mouse, Seq::empty())
    }
}

/// The keyboard-battery step of a pass.
#[verifier::opaque]
pub open spec fn kbd_part(m: NotifyModel, r: NotifyReadings, c: NotifySettings) -> (bool, Seq<AlertView>) {
    if c.enabled.battery_kbd {
        peripheral_step(m.battery_kbd, r.battery_kbd, c.thresholds.battery_kbd as int, text_or(c.labels@, "battery_kbd"@, "Keyboard"@))
    } else {
        (m.battery_kbd, Seq::empty())
    }
}

/// The load-average step of a pass.
#[verifier::opaque]
pub open spec fn load_part(m: NotifyModel, r: NotifyReadings, c: NotifySettings, now: nat) -> (NotificationLatch, Seq<AlertView>) {
    if c.enabled.load_avg {
        load_step(
            m.load_avg,
            r.load_average,
            c.thresholds.load_avg_minutes as int,
            now,
            text_or(c.labels@, "load_avg"@, "Load avg"@),
            text_or(c.notify_labels@, "load_high_for"@, "high for"@),
        )
    } else {
        (m.load_avg, Seq::empty())
    }
}

/// The server step of a pass.
#[verifier::opaque]
pub open spec fn server_part(m: NotifyModel, r: NotifyReadings, c: NotifySettings) -> (bool, Seq<AlertView>) {
    if c.enabled.server_check {
        server_step(m.server, r.server_ok, text_or(c.notify_labels@, "server_down"@, "Server is not reachable!"@))
    } else {
        (m.server, Seq::empty())
    }
}

/// One notification pass at monotonic time `now`: the enabled alerts in a
/// fixed order (CPU, GPU, disk usage, SMART, disk temperature, system
/// batteries, mouse, keyboard, load, server), and the state after it.
/// Disabled alerts and absent readings leave their state unchanged.
pub open spec fn notify_pass(m: NotifyModel, r: NotifyReadings, c: NotifySettings, now: nat) -> (NotifyModel, Seq<AlertView>) {
    (
        NotifyModel {
            cpu_temp: cpu_part(m, r, c, now).0,
            gpu_nvidia_temp: gpu_part(m, r, c, now).0,
            disk: disk_part(m, r, c).0,
            disk_smart: smart_part(m, r, c).0,
            hd_temp: hd_part(m, r, c, now).0,
            battery_sys: battery_part(m, r, c).0,
            battery_mouse: mouse_part(m, r, c).0,
            battery_kbd: kbd_part(m, r, c).0,
            load_avg: load_part(m, r, c, now).0,
            server: server_part(m, r, c).0,
        },
        cpu_part(m, r, c, now).1 + gpu_part(m, r, c, now).1 + disk_part(m, r, c).1 + smart_part(m, r, c).1 + hd_part(
            m,
            r,
            c,
            now,
        ).1 + battery_part(m, r, c).1 + mouse_part(m, r, c).1 + kbd_part(m, r, c).1 + load_part(m, r, c, now).1
            + server_part(m, r, c).1,
    )
}

// ── Laws ───────────────────────────────────────────────────────────────────

/// No two entries share a key.
pub open spec fn distinct_keys<X>(e: Seq<(String, X)>) -> bool {
    forall|i: int, j: int| 0 <= i < j < e.len() ==> (#[trigger] e[i]).0@ != (#[trigger] e[j]).0@
}

/// No two batteries share an id.
pub open spec fn distinct_ids(e: Seq<BatterySystemReading>) -> bool {
    forall|i: int, j: int| 0 <= i < j < e.len() ==> (#[trigger] e[i]).id@ != (#[trigger] e[j]).id@
}

/// A latch stepped twice under the same conditions at the same instant
/// fires at most once, provided the clear point is at or under the trip
/// point.
proof fn lemma_latch_quiet(l: NotificationLatch, bt: bool, bc: bool, hold: int, now: nat)
    requires
        bc ==> bt,
        now <= u128::MAX,
    ensures
        !latch_step(latch_step(l, bt, bc, hold, now).0, bt, bc, hold, now).1,
{
}

proof fn lemma_disk_sets(m: Map<Seq<char>, bool>, e: Seq<(String, Option<i32>)>, thr: int, word: Seq<char>)
    requires
        distinct_keys(e),
    ensures
        forall|i: int| 0 <= i < e.len() && (#[trigger] e[i]).1 is Some ==> map_or(disk_fold(m, e, thr, word).0, e[i].0@, false)
            == (e[i].1->0 >= thr),
    decreases e.len(),
{
    if e.len() > 0 {
        let d = e.drop_last();
        assert(distinct_keys(d)) by {
            assert forall|i: int, j: int| 0 <= i < j < d.len() implies (#[trigger] d[i]).0@ != (#[trigger] d[j]).0@ by {
                assert(d[i] == e[i] && d[j] == e[j]);
            }
        }
        lemma_disk_sets(m, d, thr, word);
        assert forall|i: int| 0 <= i < e.len() && (#[trigger] e[i]).1 is Some implies map_or(
            disk_fold(m, e, thr, word).0,
            e[i].0@,
            false,
        ) == (e[i].1->0 >= thr) by {
            if i < e.len() - 1 {
                assert(d[i] == e[i]);
                assert(e[i].0@ != e[e.len() - 1].0@);
            }
        }
    }
}

/// The rising edges of one disk poll, measured against the flags before
/// it: in order, an alert for each mount now at or over the threshold that
/// was not flagged.
pub open spec fn disk_edges(m: Map<Seq<char>, bool>, e: Seq<(String, Option<i32>)>, thr: int, word: Seq<char>) -> Seq<AlertView>
    decreases e.len(),
{
    if e.len() == 0 {
        Seq::empty()
    } else {
        let rest = disk_edges(m, e.drop_last(), thr, word);
        let x = e.last();
        match x.1 {
            Some(p) => if p >= thr && !map_or(m, x.0@, false) {
                rest.push(alert(word + " "@ + x.0@ + " "@ + signed_decimal(p as int) + "%"@, "dialog-error"@))
            } else {
                rest
            },
            None => rest,
        }
    }
}

proof fn lemma_disk_untouched(m: Map<Seq<char>, bool>, e: Seq<(String, Option<i32>)>, thr: int, word: Seq<char>, k: Seq<char>)
    requires
        forall|i: int| 0 <= i < e.len() ==> (#[trigger] e[i]).0@ != k,
    ensures
        map_or(disk_fold(m, e, thr, word).0, k, false) == map_or(m, k, false),
    decreases e.len(),
{
    if e.len() > 0 {
        let d = e.drop_last();
        assert forall|i: int| 0 <= i < d.len() implies (#[trigger] d[i]).0@ != k by {
            assert(d[i] == e[i]);
        }
        lemma_disk_untouched(m, d, thr, word, k);
        assert(e.last() == e[e.len() - 1]);
    }
}

/// Disk alerts fire on rising edges per mount: when no mount repeats within
/// a poll, the pass alerts exactly for the mounts now at or over the
/// threshold that were not flagged before, in order; afterwards each
/// mount's flag says whether it is over, and mounts without a reading keep
/// their flag.
pub proof fn lemma_disk_rising_edges(m: Map<Seq<char>, bool>, e: Seq<(String, Option<i32>)>, thr: int, word: Seq<char>)
    requires
        distinct_keys(e),
    ensures
        disk_fold(m, e, thr, word).1 == disk_edges(m, e, thr, word),
        forall|i: int| 0 <= i < e.len() && (#[trigger] e[i]).1 is Some ==> map_or(disk_fold(m, e, thr, word).0, e[i].0@, false)
            == (e[i].1->0 >= thr),
        forall|k: Seq<char>| (forall|i: int| 0 <= i < e.len() ==> (#[trigger] e[i]).0@ != k) ==> #[trigger] map_or(
            disk_fold(m, e, thr, word).0,
            k,
            false,
        ) == map_or(m, k, false),
    decreases e.len(),
{
    lemma_disk_sets(m, e, thr, word);
    assert forall|k: Seq<char>| (forall|i: int| 0 <= i < e.len() ==> (#[trigger] e[i]).0@ != k) implies #[trigger] map_or(
        disk_fold(m, e, thr, word).0,
        k,
        false,
    ) == map_or(m, k, false) by {
        lemma_disk_untouched(m, e, thr, word, k);
    }
    if e.len() > 0 {
        let d = e.drop_last();
        assert(distinct_keys(d)) by {
            assert forall|i: int, j: int| 0 <= i < j < d.len() implies (#[trigger] d[i]).0@ != (#[trigger] d[j]).0@ by {
                assert(d[i] == e[i] && d[j] == e[j]);
            }
        }
        lemma_disk_rising_edges(m, d, thr, word);
        let x = e.last();
        assert forall|i: int| 0 <= i < d.len() implies (#[trigger] d[i]).0@ != x.0@ by {
            assert(d[i] == e[i]);
            assert(x == e[e.len() - 1]);
        }
        lemma_disk_untouched(m, d, thr, word, x.0@);
    }
}

proof fn lemma_disk_quiet(m: Map<Seq<char>, bool>, e: Seq<(String, Option<i32>)>, thr: int, word: Seq<char>)
    requires
        forall|i: int| 0 <= i < e.len() && (#[trigger] e[i]).1 is Some ==> map_or(m, e[i].0@, false) == (e[i].1->0 >= thr),
    ensures
        disk_fold(m, e, thr, word).1.len() == 0,
        forall|k: Seq<char>| #[trigger] map_or(disk_fold(m, e, thr, word).0, k, false) == map_or(m, k, false),
    decreases e.len(),
{
    if e.len() > 0 {
        let d = e.drop_last();
        assert forall|i: int| 0 <= i < d.len() && (#[trigger] d[i]).1 is Some implies map_or(m, d[i].0@, false) == (d[i].1->0
            >= thr) by {
            assert(d[i] == e[i]);
        }
        lemma_disk_quiet(m, d, thr, word);
        let x = e[e.len() - 1];
        assert(map_or(disk_fold(m, d, thr, word).0, x.0@, false) == map_or(m, x.0@, false));
        assert forall|k: Seq<char>| #[trigger] map_or(disk_fold(m, e, thr, word).0, k, false) == map_or(m, k, false) by {
            assert(map_or(disk_fold(m, d, thr, word).0, k, false) == map_or(m, k, false));
        }
    }
}

proof fn lemma_smart_sets(m: Map<Seq<char>, bool>, e: Seq<(String, Option<bool>)>, word: Seq<char>, fail: Seq<char>)
    requires
        distinct_keys(e),
    ensures
        forall|i: int| 0 <= i < e.len() && (#[trigger] e[i]).1 is Some ==> map_or(smart_fold(m, e, word, fail).0, e[i].0@, false)
            == !(e[i].1->0),
    decreases e.len(),
{
    if e.len() > 0 {
        let d = e.drop_last();
        assert(distinct_keys(d)) by {
            assert forall|i: int, j: int| 0 <= i < j < d.len() implies (#[trigger] d[i]).0@ != (#[trigger] d[j]).0@ by {
                assert(d[i] == e[i] && d[j] == e[j]);
            }
        }
        lemma_smart_sets(m, d, word, fail);
        assert forall|i: int| 0 <= i < e.len() && (#[trigger] e[i]).1 is Some implies map_or(
            smart_fold(m, e, word, fail).0,
            e[i].0@,
            false,
        ) == !(e[i].1->0) by {
            if i < e.len() - 1 {
                assert(d[i] == e[i]);
                assert(e[i].0@ != e[e.len() - 1].0@);
            }
        }
    }
}

proof fn lemma_smart_quiet(m: Map<Seq<char>, bool>, e: Seq<(String, Option<bool>)>, word: Seq<char>, fail: Seq<char>)
    requires
        forall|i: int| 0 <= i < e.len() && (#[trigger] e[i]).1 is Some ==> map_or(m, e[i].0@, false) == !(e[i].1->0),
    ensures
        smart_fold(m, e, word, fail).1.len() == 0,
        forall|k: Seq<char>| #[trigger] map_or(smart_fold(m, e, word, fail).0, k, false) == map_or(m, k, false),
    decreases e.len(),
{
    if e.len() > 0 {
        let d = e.drop_last();
        assert forall|i: int| 0 <= i < d.len() && (#[trigger] d[i]).1 is Some implies map_or(m, d[i].0@, false) == !(d[i].1->0) by {
            assert(d[i] == e[i]);
        }
        lemma_smart_quiet(m, d, word, fail);
        let x = e[e.len() - 1];
        assert(map_or(smart_fold(m, d, word, fail).0, x.0@, false) == map_or(m, x.0@, false));
        assert forall|k: Seq<char>| #[trigger] map_or(smart_fold(m, e, word, fail).0, k, false) == map_or(m, k, false) by {
            assert(map_or(smart_fold(m, d, word, fail).0, k, false) == map_or(m, k, false));
        }
    }
}

/// Whether a system battery counts as low.
pub open spec fn battery_low(b: BatterySystemReading, thr: int) -> bool {
    b.state != BatteryState::Charging && b.charge_percent > 0 && b.charge_percent <= thr
}

proof fn lemma_battery_sets(m: Map<Seq<char>, bool>, e: Seq<BatterySystemReading>, thr: int, word: Seq<char>)
    requires
        distinct_ids(e),
    ensures
        forall|i: int| 0 <= i < e.len() && (#[trigger] e[i]).charge_percent != 0 ==> map_or(battery_fold(m, e, thr, word).0, e[i].id@, false)
            == battery_low(e[i], thr),
    decreases e.len(),
{
    if e.len() > 0 {
        let d = e.drop_last();
        assert(distinct_ids(d)) by {
            assert forall|i: int, j: int| 0 <= i < j < d.len() implies (#[trigger] d[i]).id@ != (#[trigger] d[j]).id@ by {
                assert(d[i] == e[i] && d[j] == e[j]);
            }
        }
        lemma_battery_sets(m, d, thr, word);
        assert forall|i: int| 0 <= i < e.len() && (#[trigger] e[i]).charge_percent != 0 implies map_or(
            battery_fold(m, e, thr, word).0,
            e[i].id@,
            false,
        ) == battery_low(e[i], thr) by {
            if i < e.len() - 1 {
                assert(d[i] == e[i]);
                assert(e[i].id@ != e[e.len() - 1].id@);
            }
        }
    }
}

proof fn lemma_battery_quiet(m: Map<Seq<char>, bool>, e: Seq<BatterySystemReading>, thr: int, word: Seq<char>)
    requires
        forall|i: int| 0 <= i < e.len() && (#[trigger] e[i]).charge_percent != 0 ==> map_or(m, e[i].id@, false) == battery_low(e[i], thr),
    ensures
        battery_fold(m, e, thr, word).1.len() == 0,
        forall|k: Seq<char>| #[trigger] map_or(battery_fold(m, e, thr, word).0, k, false) == map_or(m, k, false),
    decreases e.len(),
{
    if e.len() > 0 {
        let d = e.drop_last();
        assert forall|i: int| 0 <= i < d.len() && (#[trigger] d[i]).charge_percent != 0 implies map_or(m, d[i].id@, false)
            == battery_low(d[i], thr) by {
            assert(d[i] == e[i]);
        }
        lemma_battery_quiet(m, d, thr, word);
        let x = e[e.len() - 1];
        assert(map_or(battery_fold(m, d, thr, word).0, x.id@, false) == map_or(m, x.id@, false));
        assert forall|k: Seq<char>| #[trigger] map_or(battery_fold(m, e, thr, word).0, k, false) == map_or(m, k, false) by {
            assert(map_or(battery_fold(m, d, thr, word).0, k, false) == map_or(m, k, false));
        }
    }
}

/// The latch step of a disk-temperature reading.
pub open spec fn hd_latch(l: NotificationLatch, t: int, trip: int, cool: int, hold: int, now: nat) -> (NotificationLatch, bool) {
    latch_step(l, t < trip, t < trip - cool, hold, now)
}

proof fn lemma_hd_untouched(
    m: Map<Seq<char>, NotificationLatch>,
    e: Seq<(String, Option<i32>)>,
    trip: int,
    cool: int,
    hold: int,
    now: nat,
    word: Seq<char>,
    k: Seq<char>,
)
    requires
        forall|j: int| 0 <= j < e.len() ==> (#[trigger] e[j]).0@ != k,
    ensures
        map_or(hd_fold(m, e, trip, cool, hold, now, word).0, k, idle_latch()) == map_or(m, k, idle_latch()),
    decreases e.len(),
{
    if e.len() > 0 {
        let d = e.drop_last();
        assert forall|j: int| 0 <= j < d.len() implies (#[trigger] d[j]).0@ != k by {
            assert(d[j] == e[j]);
        }
        lemma_hd_untouched(m, d, trip, cool, hold, now, word, k);
        assert(e[e.len() - 1].0@ != k);
    }
}

proof fn lemma_hd_sets(
    m: Map<Seq<char>, NotificationLatch>,
    e: Seq<(String, Option<i32>)>,
    trip: int,
    cool: int,
    hold: int,
    now: nat,
    word: Seq<char>,
)
    requires
        distinct_keys(e),
    ensures
        forall|i: int| 0 <= i < e.len() && (#[trigger] e[i]).1 is Some ==> map_or(
            hd_fold(m, e, trip, cool, hold, now, word).0,
            e[i].0@,
            idle_latch(),
        ) == hd_latch(map_or(m, e[i].0@, idle_latch()), e[i].1->0 as int, trip, cool, hold, now).0,
    decreases e.len(),
{
    if e.len() > 0 {
        let d = e.drop_last();
        let last = e[e.len() - 1];
        assert(distinct_keys(d)) by {
            assert forall|i: int, j: int| 0 <= i < j < d.len() implies (#[trigger] d[i]).0@ != (#[trigger] d[j]).0@ by {
                assert(d[i] == e[i] && d[j] == e[j]);
            }
        }
        lemma_hd_sets(m, d, trip, cool, hold, now, word);
        assert forall|j: int| 0 <= j < d.len() implies (#[trigger] d[j]).0@ != last.0@ by {
            assert(d[j] == e[j]);
        }
        lemma_hd_untouched(m, d, trip, cool, hold, now, word, last.0@);
        assert forall|i: int| 0 <= i < e.len() && (#[trigger] e[i]).1 is Some implies map_or(
            hd_fold(m, e, trip, cool, hold, now, word).0,
            e[i].0@,
            idle_latch(),
        ) == hd_latch(map_or(m, e[i].0@, idle_latch()), e[i].1->0 as int, trip, cool, hold, now).0 by {
            if i < e.len() - 1 {
                assert(d[i] == e[i]);
                assert(e[i].0@ != last.0@);
            }
        }
    }
}

proof fn lemma_hd_quiet(
    m: Map<Seq<char>, NotificationLatch>,
    e: Seq<(String, Option<i32>)>,
    trip: int,
    cool: int,
    hold: int,
    now: nat,
    word: Seq<char>,
)
    requires
        distinct_keys(e),
        forall|i: int| 0 <= i < e.len() && (#[trigger] e[i]).1 is Some ==> !hd_latch(
            map_or(m, e[i].0@, idle_latch()),
            e[i].1->0 as int,
            trip,
            cool,
            hold,
            now,
        ).1,
    ensures
        hd_fold(m, e, trip, cool, hold, now, word).1.len() == 0,
    decreases e.len(),
{
    if e.len() > 0 {
        let d = e.drop_last();
        let last = e[e.len() - 1];
        assert(distinct_keys(d)) by {
            assert forall|i: int, j: int| 0 <= i < j < d.len() implies (#[trigger] d[i]).0@ != (#[trigger] d[j]).0@ by {
                assert(d[i] == e[i] && d[j] == e[j]);
            }
        }
        assert forall|i: int| 0 <= i < d.len() && (#[trigger] d[i]).1 is Some implies !hd_latch(
            map_or(m, d[i].0@, idle_latch()),
            d[i].1->0 as int,
            trip,
            cool,
            hold,
            now,
        ).1 by {
            assert(d[i] == e[i]);
        }
        lemma_hd_quiet(m, d, trip, cool, hold, now, word);
        assert forall|j: int| 0 <= j < d.len() implies (#[trigger] d[j]).0@ != last.0@ by {
            assert(d[j] == e[j]);
        }
        lemma_hd_untouched(m, d, trip, cool, hold, now, word, last.0@);
    }
}

/// Alerts fire on edges: a second pass over the same readings at the same
/// instant raises nothing, whatever the state before the first. This holds
/// when no device key repeats within a poll and the hysteresis is not
/// negative (a negative one clears a fired temperature alert on the very
/// reading that keeps it over its trip point).
#[verifier::spinoff_prover]
#[verifier::rlimit(40)]
pub proof fn lemma_repeated_pass_is_silent(m: NotifyModel, r: NotifyReadings, c: NotifySettings, now: nat)
    requires
        distinct_keys(r.disk_usage@),
        distinct_keys(r.disk_smart@),
        distinct_keys(r.hd_temps@),
        distinct_ids(r.battery_sys@),
        c.thresholds.temp_hysteresis >= 0,
        now <= u128::MAX,
    ensures
        notify_pass(notify_pass(m, r, c, now).0, r, c, now).1.len() == 0,
{
    reveal(cpu_part);
    reveal(gpu_part);
    reveal(disk_part);
    reveal(smart_part);
    reveal(hd_part);
    reveal(battery_part);
    reveal(mouse_part);
    reveal(kbd_part);
    reveal(load_part);
    reveal(server_part);
    let m1 = notify_pass(m, r, c, now).0;
    let th = c.thresholds;
    let cool = th.temp_hysteresis as int;
    let hold = th.temp_sustain_seconds as int;
    if c.enabled.cpu_temp && r.cpu_temp is Some {
        let t = r.cpu_temp->0 as int;
        lemma_latch_quiet(m.cpu_temp, t < th.cpu_temp, t < th.cpu_temp - cool, hold, now);
    }
    if c.enabled.gpu_nvidia_temp && r.gpu_temp is Some {
        let t = r.gpu_temp->0 as int;
        lemma_latch_quiet(m.gpu_nvidia_temp, t < th.gpu_nvidia_temp, t < th.gpu_nvidia_temp - cool, hold, now);
    }
    if c.enabled.disk_usage {
        let word = text_or(c.notify_labels@, "disk_usage"@, "Disk"@);
        lemma_disk_sets(m.disk, r.disk_usage@, th.disk_usage as int, word);
        lemma_disk_quiet(m1.disk, r.disk_usage@, th.disk_usage as int, word);
    }
    if c.enabled.disk_smart {
        let word = text_or(c.notify_labels@, "disk_smart"@, "Disk"@);
        let fail = text_or(c.notify_labels@, "smart_fail"@, "SMART check FAILED"@);
        lemma_smart_sets(m.disk_smart, r.disk_smart@, word, fail);
        lemma_smart_quiet(m1.disk_smart, r.disk_smart@, word, fail);
    }
    if c.enabled.hd_temp {
        let word = text_or(c.labels@, "hd_temp"@, "Disk"@);
        let e = r.hd_temps@;
        let trip = th.hd_temp as int;
        lemma_hd_sets(m.hd_temp, e, trip, cool, hold, now, word);
        assert forall|i: int| 0 <= i < e.len() && (#[trigger] e[i]).1 is Some implies !hd_latch(
            map_or(m1.hd_temp, e[i].0@, idle_latch()),
            e[i].1->0 as int,
            trip,
            cool,
            hold,
            now,
        ).1 by {
            let t = e[i].1->0 as int;
            lemma_latch_quiet(map_or(m.hd_temp, e[i].0@, idle_latch()), t < trip, t < trip - cool, hold, now);
        }
        lemma_hd_quiet(m1.hd_temp, e, trip, cool, hold, now, word);
    }
    if c.enabled.battery_sys {
        let word = text_or(c.labels@, "battery_sys"@, "Battery"@);
        lemma_battery_sets(m.battery_sys, r.battery_sys@, th.battery_sys as int, word);
        lemma_battery_quiet(m1.battery_sys, r.battery_sys@, th.battery_sys as int, word);
    }
    if c.enabled.load_avg && r.load_average is Some {
        let x = r.load_average->0;
        lemma_latch_quiet(m.load_avg, x.below_threshold, x.below_threshold, th.load_avg_minutes * 60, now);
    }
}

/// With every alert disabled a pass raises nothing and changes nothing.
pub proof fn lemma_disabled_pass_is_inert(m: NotifyModel, r: NotifyReadings, c: NotifySettings, now: nat)
    requires
        !c.enabled.cpu_temp,
        !c.enabled.gpu_nvidia_temp,
        !c.enabled.disk_usage,
        !c.enabled.disk_smart,
        !c.enabled.hd_temp,
        !c.enabled.battery_sys,
        !c.enabled.battery_mouse,
        !c.enabled.battery_kbd,
        !c.enabled.load_avg,
        !c.enabled.server_check,
    ensures
        notify_pass(m, r, c, now).0 == m,
        notify_pass(m, r, c, now).1.len() == 0,
{
    reveal(cpu_part);
    reveal(gpu_part);
    reveal(disk_part);
    reveal(smart_part);
    reveal(hd_part);
    reveal(battery_part);
    reveal(mouse_part);
    reveal(kbd_part);
    reveal(load_part);
    reveal(server_part);
}

// ── The pass ───────────────────────────────────────────────────────────────

/// Advances one sustained-alert latch (see [`latch_step`]) and returns
/// whether it fired.
pub fn sustained(latch: &mut NotificationLatch, below_trip: bool, below_clear: bool, hold_seconds: i64, now: u128) -> (fired: bool)
    ensures
        (*final(latch), fired) == latch_step(*old(latch), below_trip, below_clear, hold_seconds as int, now as nat),
{
    if latch.active {
        if below_clear {
            latch.active = false;
            latch.since = None;
        }
        return false;
    }
    if below_trip {
        latch.since = None;
        return false;
    }
    let since: u128 = match latch.since {
        Some(s) => s,
        None => now,
    };
    latch.since = Some(since);
    let elapsed: u128 = now.saturating_sub(since);
    if hold_seconds > 0 && elapsed < (hold_seconds as u128) * 1_000_000_000 {
        return false;
    }
    latch.active = true;
    true
}

fn push_alert(out: &mut Vec<NotificationPayload>, body: String, icon: &str)
    ensures
        alert_views(final(out)@) == alert_views(old(out)@).push(alert(body@, icon@)),
{
    let p = NotificationPayload {
        title: owned("PiroStats"),
        body,
        icon: owned(icon),
        urgency: NotificationUrgency::Critical,
        timeout: NotificationTimeout::Never,
    };
    out.push(p);
    assert(alert_views(out@) =~= alert_views(old(out)@).push(alert(body@, icon@)));
}

fn temp_check(
    latch: &mut NotificationLatch,
    temp: i32,
    trip: i32,
    cool: i64,
    hold: i64,
    now: u128,
    word: &str,
    out: &mut Vec<NotificationPayload>,
)
    requires
        -0x8000_0000 <= cool < 0x8000_0000,
    ensures
        *final(latch) == temp_alert(*old(latch), temp as int, trip as int, cool as int, hold as int, now as nat, word@).0,
        alert_views(final(out)@) == alert_views(old(out)@) + temp_alert(
            *old(latch),
            temp as int,
            trip as int,
            cool as int,
            hold as int,
            now as nat,
            word@,
        ).1,
{
    let t: i64 = temp as i64;
    let below_trip = t < trip as i64;
    let below_clear = t < trip as i64 - cool;
    if sustained(latch, below_trip, below_clear, hold, now) {
        let mut body = owned(word);
        push_str(&mut body, " ");
        push_i64(&mut body, t);
        push_str(&mut body, "C");
        push_alert(out, body, "dialog-error");
    }
    assert(alert_views(out@) =~= alert_views(old(out)@) + temp_alert(
        *old(latch),
        temp as int,
        trip as int,
        cool as int,
        hold as int,
        now as nat,
        word@,
    ).1);
}

fn flag_of(t: &Vec<(String, bool)>, key: &str) -> (r: bool)
    ensures
        r == map_or(entries_map(t@), key@, false),
{
    match find_entry(t, key) {
        Some(i) => t[i].1,
        None => false,
    }
}

fn disk_alerts(
    table: &mut Vec<(String, bool)>,
    e: &Vec<(String, Option<i32>)>,
    thr: i32,
    word: &str,
    out: &mut Vec<NotificationPayload>,
)
    ensures
        entries_map(final(table)@) == disk_fold(entries_map(old(table)@), e@, thr as int, word@).0,
        alert_views(final(out)@) == alert_views(old(out)@) + disk_fold(entries_map(old(table)@), e@, thr as int, word@).1,
{
    let ghost m0 = entries_map(table@);
    let ghost o0 = alert_views(out@);
    let mut k: usize = 0;
    assert(e@.take(0) =~= Seq::<(String, Option<i32>)>::empty());
    while k < e.len()
        invariant
            k <= e@.len(),
            entries_map(table@) == disk_fold(m0, e@.take(k as int), thr as int, word@).0,
            alert_views(out@) == o0 + disk_fold(m0, e@.take(k as int), thr as int, word@).1,
        decreases e@.len() - k,
    {
        assert(e@.take(k + 1).drop_last() =~= e@.take(k as int));
        assert(e@.take(k + 1).last() == e@[k as int]);
        let ghost prev = disk_fold(m0, e@.take(k as int), thr as int, word@);
        match e[k].1 {
            Some(p) => {
                let key = e[k].0.as_str();
                let was = flag_of(table, key);
                let over = p >= thr;
                if over && !was {
                    let mut body = owned(word);
                    push_str(&mut body, " ");
                    push_str(&mut body, key);
                    push_str(&mut body, " ");
                    push_i64(&mut body, p as i64);
                    push_str(&mut body, "%");
                    push_alert(out, body, "dialog-error");
                    assert(alert_views(out@) =~= o0 + prev.1.push(
                        alert(word@ + " "@ + key@ + " "@ + signed_decimal(p as int) + "%"@, "dialog-error"@),
                    ));
                }
                set_entry(table, key, over);
            },
            None => {},
        }
        k = k + 1;
    }
    assert(e@.take(e@.len() as int) =~= e@);
}

fn smart_alerts(
    table: &mut Vec<(String, bool)>,
    e: &Vec<(String, Option<bool>)>,
    word: &str,
    fail: &str,
    out: &mut Vec<NotificationPayload>,
)
    ensures
        entries_map(final(table)@) == smart_fold(entries_map(old(table)@), e@, word@, fail@).0,
        alert_views(final(out)@) == alert_views(old(out)@) + smart_fold(entries_map(old(table)@), e@, word@, fail@).1,
{
    let ghost m0 = entries_map(table@);
    let ghost o0 = alert_views(out@);
    let mut k: usize = 0;
    assert(e@.take(0) =~= Seq::<(String, Option<bool>)>::empty());
    while k < e.len()
        invariant
            k <= e@.len(),
            entries_map(table@) == smart_fold(m0, e@.take(k as int), word@, fail@).0,
            alert_views(out@) == o0 + smart_fold(m0, e@.take(k as int), word@, fail@).1,
        decreases e@.len() - k,
    {
        assert(e@.take(k + 1).drop_last() =~= e@.take(k as int));
        assert(e@.take(k + 1).last() == e@[k as int]);
        let ghost prev = smart_fold(m0, e@.take(k as int), word@, fail@);
        match e[k].1 {
            Some(healthy) => {
                let key = e[k].0.as_str();
                let was = flag_of(table, key);
                let bad = !healthy;
                if bad && !was {
                    let mut body = owned(word);
                    push_str(&mut body, " ");
                    push_str(&mut body, key);
                    push_str(&mut body, " ");
                    push_str(&mut body, fail);
                    push_alert(out, body, "dialog-error");
                    assert(alert_views(out@) =~= o0 + prev.1.push(
                        alert(word@ + " "@ + key@ + " "@ + fail@, "dialog-error"@),
                    ));
                }
                set_entry(table, key, bad);
            },
            None => {},
        }
        k = k + 1;
    }
    assert(e@.take(e@.len() as int) =~= e@);
}

fn hd_alerts(
    table: &mut Vec<(String, NotificationLatch)>,
    e: &Vec<(String, Option<i32>)>,
    trip: i32,
    cool: i64,
    hold: i64,
    now: u128,
    word: &str,
    out: &mut Vec<NotificationPayload>,
)
    requires
        -0x8000_0000 <= cool < 0x8000_0000,
    ensures
        entries_map(final(table)@) == hd_fold(
            entries_map(old(table)@),
            e@,
            trip as int,
            cool as int,
            hold as int,
            now as nat,
            word@,
        ).0,
        alert_views(final(out)@) == alert_views(old(out)@) + hd_fold(
            entries_map(old(table)@),
            e@,
            trip as int,
            cool as int,
            hold as int,
            now as nat,
            word@,
        ).1,
{
    let ghost m0 = entries_map(table@);
    let ghost o0 = alert_views(out@);
    let mut k: usize = 0;
    assert(e@.take(0) =~= Seq::<(String, Option<i32>)>::empty());
    while k < e.len()
        invariant
            k <= e@.len(),
            -0x8000_0000 <= cool < 0x8000_0000,
            entries_map(table@) == hd_fold(m0, e@.take(k as int), trip as int, cool as int, hold as int, now as nat, word@).0,
            alert_views(out@) == o0 + hd_fold(
                m0,
                e@.take(k as int),
                trip as int,
                cool as int,
                hold as int,
                now as nat,
                word@,
            ).1,
        decreases e@.len() - k,
    {
        assert(e@.take(k + 1).drop_last() =~= e@.take(k as int));
        assert(e@.take(k + 1).last() == e@[k as int]);
        let ghost prev = hd_fold(m0, e@.take(k as int), trip as int, cool as int, hold as int, now as nat, word@);
        match e[k].1 {
            Some(t) => {
                let key = e[k].0.as_str();
                let mut latch = match find_entry(table, key) {
                    Some(i) => table[i].1,
                    None => NotificationLatch { active: false, since: None },
                };
                let t64: i64 = t as i64;
                let fired = sustained(&mut latch, t64 < trip as i64, t64 < trip as i64 - cool, hold, now);
                if fired {
                    let mut body = owned(word);
                    push_str(&mut body, " ");
                    push_str(&mut body, key);
                    push_str(&mut body, " temp ");
                    push_i64(&mut body, t64);
                    push_str(&mut body, "C");
                    push_alert(out, body, "dialog-warning");
                    assert(alert_views(out@) =~= o0 + prev.1.push(
                        alert(word@ + " "@ + key@ + " temp "@ + signed_decimal(t as int) + "C"@, "dialog-warning"@),
                    ));
                }
                set_entry(table, key, latch);
            },
            None => {},
        }
        k = k + 1;
    }
    assert(e@.take(e@.len() as int) =~= e@);
}

fn battery_alerts(
    table: &mut Vec<(String, bool)>,
    e: &Vec<BatterySystemReading>,
    thr: i32,
    word: &str,
    out: &mut Vec<NotificationPayload>,
)
    ensures
        entries_map(final(table)@) == battery_fold(entries_map(old(table)@), e@, thr as int, word@).0,
        alert_views(final(out)@) == alert_views(old(out)@) + battery_fold(entries_map(old(table)@), e@, thr as int, word@).1,
{
    let ghost m0 = entries_map(table@);
    let ghost o0 = alert_views(out@);
    let mut k: usize = 0;
    assert(e@.take(0) =~= Seq::<BatterySystemReading>::empty());
    while k < e.len()
        invariant
            k <= e@.len(),
            entries_map(table@) == battery_fold(m0, e@.take(k as int), thr as int, word@).0,
            alert_views(out@) == o0 + battery_fold(m0, e@.take(k as int), thr as int, word@).1,
        decreases e@.len() - k,
    {
        assert(e@.take(k + 1).drop_last() =~= e@.take(k as int));
        assert(e@.take(k + 1).last() == e@[k as int]);
        let ghost prev = battery_fold(m0, e@.take(k as int), thr as int, word@);
        let b = &e[k];
        if b.charge_percent != 0 {
            let key = b.id.as_str();
            let was = flag_of(table, key);
            let over = b.state != BatteryState::Charging && b.charge_percent > 0 && b.charge_percent <= thr;
            if over && !was {
                let mut body = owned(word);
                push_str(&mut body, " ");
                push_i64(&mut body, b.charge_percent as i64);
                push_str(&mut body, "%");
                push_alert(out, body, "battery-caution");
                assert(alert_views(out@) =~= o0 + prev.1.push(
                    alert(word@ + " "@ + signed_decimal(b.charge_percent as int) + "%"@, "battery-caution"@),
                ));
            }
            set_entry(table, key, over);
        }
        k = k + 1;
    }
    assert(e@.take(e@.len() as int) =~= e@);
}

fn peripheral_alert(
    was: &mut bool,
    b: &Option<BatteryPeripheralReading>,
    thr: i32,
    fallback: &str,
    out: &mut Vec<NotificationPayload>,
)
    ensures
        *final(was) == peripheral_step(*old(was), *b, thr as int, fallback@).0,
        alert_views(final(out)@) == alert_views(old(out)@) + peripheral_step(*old(was), *b, thr as int, fallback@).1,
{
    match b {
        Some(b) => {
            if b.charge_percent != 0 {
                let over = b.charge_percent > 0 && b.charge_percent < thr;
                if over && !*was {
                    let mut body = if b.name.as_str().unicode_len() == 0 {
                        owned(fallback)
                    } else {
                        owned(b.name.as_str())
                    };
                    push_str(&mut body, ": ");
                    push_i64(&mut body, b.charge_percent as i64);
                    push_str(&mut body, "%");
                    push_alert(out, body, "battery-caution");
                }
                *was = over;
            }
        },
        None => {},
    }
    assert(alert_views(out@) =~= alert_views(old(out)@) + peripheral_step(*old(was), *b, thr as int, fallback@).1);
}

fn load_alert(
    latch: &mut NotificationLatch,
    r: &Option<LoadReading>,
    minutes: i32,
    now: u128,
    word: &str,
    high_for: &str,
    out: &mut Vec<NotificationPayload>,
)
    ensures
        *final(latch) == load_step(*old(latch), *r, minutes as int, now as nat, word@, high_for@).0,
        alert_views(final(out)@) == alert_views(old(out)@) + load_step(
            *old(latch),
            *r,
            minutes as int,
            now as nat,
            word@,
            high_for@,
        ).1,
{
    match r {
        Some(x) => {
            let hold: i64 = minutes as i64 * 60;
            if sustained(latch, x.below_threshold, x.below_threshold, hold, now) {
                let mut body = owned(word);
                push_str(&mut body, " 15m ");
                push_str(&mut body, high_for);
                push_str(&mut body, " ");
                push_i64(&mut body, minutes as i64);
                push_str(&mut body, " min (");
                push_str(&mut body, x.fifteen.as_str());
                push_str(&mut body, ")");
                push_alert(out, body, "dialog-warning");
            }
        },
        None => {},
    }
    assert(alert_views(out@) =~= alert_views(old(out)@) + load_step(
        *old(latch),
        *r,
        minutes as int,
        now as nat,
        word@,
        high_for@,
    ).1);
}

/// Runs one notification pass (see [`notify_pass`]): updates the edge state
/// and returns the alerts to send, in order.
pub fn notifications(readings: &NotifyReadings, settings: &NotifySettings, state: &mut NotificationState, now: u128) -> (r: Vec<NotificationPayload>)
    ensures
        state_model(*final(state)) == notify_pass(state_model(*old(state)), *readings, *settings, now as nat).0,
        alert_views(r@) == notify_pass(state_model(*old(state)), *readings, *settings, now as nat).1,
{
    let ghost m = state_model(*state);
    let ghost pass = notify_pass(m, *readings, *settings, now as nat);
    let en = settings.enabled;
    let th = settings.thresholds;
    let hold: i64 = th.temp_sustain_seconds as i64;
    let cool: i64 = th.temp_hysteresis as i64;
    let labels = &settings.labels;
    let notify_labels = &settings.notify_labels;
    let mut out: Vec<NotificationPayload> = Vec::new();
    let ghost o0 = alert_views(out@);
    assert(o0 =~= Seq::<AlertView>::empty());

    let mut cpu = state.cpu_temp;
    if en.cpu_temp {
        if let Some(t) = readings.cpu_temp {
            temp_check(&mut cpu, t, th.cpu_temp, cool, hold, now, text_or_else(labels, "cpu_temp", "Cpu temp"), &mut out);
        }
    }
    let ghost o1 = alert_views(out@);
    assert(o1 == cpu_part(m, *readings, *settings, now as nat).1 && cpu == cpu_part(m, *readings, *settings, now as nat).0) by {
        reveal(cpu_part);
    }
    let mut gpu = state.gpu_nvidia_temp;
    if en.gpu_nvidia_temp {
        if let Some(t) = readings.gpu_temp {
            temp_check(&mut gpu, t, th.gpu_nvidia_temp, cool, hold, now, text_or_else(labels, "gpu_nvidia_temp", "Gpu temp"), &mut out);
        }
    }
    let ghost o2 = alert_views(out@);
    assert(o2 == o1 + gpu_part(m, *readings, *settings, now as nat).1 && gpu == gpu_part(m, *readings, *settings, now as nat).0) by {
        reveal(gpu_part);
    }
    let mut disk: Vec<(String, bool)> = Vec::new();
    std::mem::swap(&mut disk, &mut state.disk);
    if en.disk_usage {
        disk_alerts(&mut disk, &readings.disk_usage, th.disk_usage, text_or_else(notify_labels, "disk_usage", "Disk"), &mut out);
    }
    let ghost o3 = alert_views(out@);
    assert(o3 == o2 + disk_part(m, *readings, *settings).1 && entries_map(disk@) == disk_part(m, *readings, *settings).0) by {
        reveal(disk_part);
    }
    let mut smart: Vec<(String, bool)> = Vec::new();
    std::mem::swap(&mut smart, &mut state.disk_smart);
    if en.disk_smart {
        smart_alerts(
            &mut smart,
            &readings.disk_smart,
            text_or_else(notify_labels, "disk_smart", "Disk"),
            text_or_else(notify_labels, "smart_fail", "SMART check FAILED"),
            &mut out,
        );
    }
    let ghost o4 = alert_views(out@);
    assert(o4 == o3 + smart_part(m, *readings, *settings).1 && entries_map(smart@) == smart_part(m, *readings, *settings).0) by {
        reveal(smart_part);
    }
    let mut hd: Vec<(String, NotificationLatch)> = Vec::new();
    std::mem::swap(&mut hd, &mut state.hd_temp);
    if en.hd_temp {
        hd_alerts(&mut hd, &readings.hd_temps, th.hd_temp, cool, hold, now, text_or_else(labels, "hd_temp", "Disk"), &mut out);
    }
    let ghost o5 = alert_views(out@);
    assert(o5 == o4 + hd_part(m, *readings, *settings, now as nat).1 && entries_map(hd@) == hd_part(m, *readings, *settings, now as nat).0) by {
        reveal(hd_part);
    }
    let mut bat: Vec<(String, bool)> = Vec::new();
    std::mem::swap(&mut bat, &mut state.battery_sys);
    if en.battery_sys {
        battery_alerts(&mut bat, &readings.battery_sys, th.battery_sys, text_or_else(labels, "battery_sys", "Battery"), &mut out);
    }
    let ghost o6 = alert_views(out@);
    assert(o6 == o5 + battery_part(m, *readings, *settings).1 && entries_map(bat@) == battery_part(m, *readings, *settings).0) by {
        reveal(battery_part);
    }
    let mut mouse = state.battery_mouse;
    if en.battery_mouse {
        peripheral_alert(&mut mouse, &readings.battery_mouse, th.battery_mouse, text_or_else(labels, "battery_mouse", "Mouse"), &mut out);
    }
    let ghost o7 = alert_views(out@);
    assert(o7 == o6 + mouse_part(m, *readings, *settings).1 && mouse == mouse_part(m, *readings, *settings).0) by {
        reveal(mouse_part);
    }
    let mut kbd = state.battery_kbd;
    if en.battery_kbd {
        peripheral_alert(&mut kbd, &readings.battery_kbd, th.battery_kbd, text_or_else(labels, "battery_kbd", "Keyboard"), &mut out);
    }
    let ghost o8 = alert_views(out@);
    assert(o8 == o7 + kbd_part(m, *readings, *settings).1 && kbd == kbd_part(m, *readings, *settings).0) by {
        reveal(kbd_part);
    }
    let mut load = state.load_avg;
    if en.load_avg {
        load_alert(
            &mut load,
            &readings.load_average,
            th.load_avg_minutes,
            now,
            text_or_else(labels, "load_avg", "Load avg"),
            text_or_else(notify_labels, "load_high_for", "high for"),
            &mut out,
        );
    }
    let ghost o9 = alert_views(out@);
    assert(o9 == o8 + load_part(m, *readings, *settings, now as nat).1 && load == load_part(m, *readings, *settings, now as nat).0) by {
        reveal(load_part);
    }
    let mut server = state.server;
    if en.server_check {
        if let Some(ok) = readings.server_ok {
            let down = !ok;
            if down && !server {
                let body = owned(text_or_else(notify_labels, "server_down", "Server is not reachable!"));
                push_alert(&mut out, body, "dialog-error");
            }
            server = down;
        }
    }
    assert(alert_views(out@) =~= o9 + server_part(m, *readings, *settings).1 && server == server_part(m, *readings, *settings).0) by {
        reveal(server_part);
    }
    state.cpu_temp = cpu;
    state.gpu_nvidia_temp = gpu;
    state.disk = disk;
    state.disk_smart = smart;
    state.hd_temp = hd;
    state.battery_sys = bat;
    state.battery_mouse = mouse;
    state.battery_kbd = kbd;
    state.load_avg = load;
    state.server = server;
    assert(state_model(*state) =~= pass.0);
    assert(alert_views(out@) =~= pass.1);
    out
}

/// `s` occurs in `a` in order, possibly with gaps.
pub open spec fn in_order(s: Seq<AlertView>, a: Seq<AlertView>) -> bool
    decreases a.len(),
{
    if s.len() == 0 {
        true
    } else if a.len() == 0 {
        false
    } else if s.last() == a.last() {
        in_order(s.drop_last(), a.drop_last()) || in_order(s, a.drop_last())
    } else {
        in_order(s, a.drop_last())
    }
}

/// The payloads of a sequence of failures.
pub open spec fn failed_views(f: Seq<NotificationFailure>) -> Seq<AlertView> {
    Seq::new(f.len(), |i: int| alert_view(f[i].payload))
}

/// The failures among `outcomes`, each paired with the payload that was
/// sent, in order.
pub open spec fn failures_of(
    sent: Seq<NotificationPayload>,
    outcomes: Seq<Result<(), NotificationError>>,
) -> Seq<NotificationFailure>
    decreases outcomes.len(),
{
    if outcomes.len() == 0 || sent.len() == 0 {
        Seq::empty()
    } else {
        let rest = failures_of(sent.drop_last(), outcomes.drop_last());
        match outcomes.last() {
            Ok(_) => rest,
            Err(e) => rest.push(NotificationFailure { payload: sent.last(), error: e }),
        }
    }
}

/// Runs one notification pass (see [`notifications`]) and sends each alert
/// through `facade`, in order; a failed send is reported and does not stop
/// the others or undo the state change.
pub fn check_and_notify<F: NotificationFacade>(
    readings: &NotifyReadings,
    settings: &NotifySettings,
    state: &mut NotificationState,
    now: u128,
    facade: &mut NotificationLog<F>,
) -> (report: NotificationReport)
    ensures
        state_model(*final(state)) == notify_pass(state_model(*old(state)), *readings, *settings, now as nat).0,
        report.attempted == notify_pass(state_model(*old(state)), *readings, *settings, now as nat).1.len(),
        final(facade).sent().len() == old(facade).sent().len() + report.attempted,
        final(facade).outcomes().len() == old(facade).outcomes().len() + report.attempted,
        final(facade).sent().take(old(facade).sent().len() as int) == old(facade).sent(),
        final(facade).outcomes().take(old(facade).outcomes().len() as int) == old(facade).outcomes(),
        alert_views(final(facade).sent().skip(old(facade).sent().len() as int))
            == notify_pass(state_model(*old(state)), *readings, *settings, now as nat).1,
        report.failures@ == failures_of(
            final(facade).sent().skip(old(facade).sent().len() as int),
            final(facade).outcomes().skip(old(facade).outcomes().len() as int),
        ),
        in_order(failed_views(report.failures@), notify_pass(state_model(*old(state)), *readings, *settings, now as nat).1),
{
    let mut pending = notifications(readings, settings, state, now);
    let ghost all = pending@;
    let ghost alerts = alert_views(pending@);
    let ghost s0 = facade.sent();
    let ghost o0 = facade.outcomes();
    let total = pending.len();
    let mut failures: Vec<NotificationFailure> = Vec::new();
    let mut attempted: usize = 0;
    while pending.len() > 0
        invariant
            attempted <= total,
            attempted + pending@.len() == total,
            total == all.len(),
            total == alerts.len(),
            alerts == alert_views(all),
            pending@ == all.skip(attempted as int),
            facade.sent() == s0 + all.take(attempted as int),
            facade.outcomes().len() == o0.len() + attempted,
            facade.outcomes().take(o0.len() as int) == o0,
            failures@ == failures_of(all.take(attempted as int), facade.outcomes().skip(o0.len() as int)),
            in_order(failed_views(failures@), alerts.take(attempted as int)),
        decreases pending@.len(),
    {
        let ghost before = pending@;
        let ghost sent_part = all.take(attempted as int);
        let ghost out_before = facade.outcomes();
        let p = pending.remove(0);
        assert(p == all[attempted as int]);
        assert(pending@ =~= all.skip(attempted + 1));
        assert(alert_view(p) == alerts[attempted as int]);
        assert(alerts.take(attempted + 1).drop_last() =~= alerts.take(attempted as int));
        assert(alerts.take(attempted + 1).last() == alerts[attempted as int]);
        let r = facade.send(&p);
        assert(all.take(attempted + 1) =~= sent_part.push(p));
        assert(facade.sent() =~= s0 + all.take(attempted + 1));
        let ghost outs = facade.outcomes().skip(o0.len() as int);
        assert(outs.drop_last() =~= out_before.skip(o0.len() as int));
        assert(outs.last() == r);
        assert(all.take(attempted + 1).drop_last() =~= sent_part);
        assert(all.take(attempted + 1).last() == p);
        assert(facade.outcomes().take(o0.len() as int) =~= o0) by {
            assert(facade.outcomes() =~= out_before.push(r));
        }
        match r {
            Ok(()) => {},
            Err(error) => {
                let ghost prev = failures@;
                failures.push(NotificationFailure { payload: p, error });
                assert(failed_views(failures@).drop_last() =~= failed_views(prev));
            },
        }
        attempted = attempted + 1;
    }
    assert(alerts.take(total as int) =~= alerts);
    assert(all.take(total as int) =~= all);
    assert(facade.sent().skip(s0.len() as int) =~= all);
    assert(facade.sent().take(s0.len() as int) =~= s0);
    NotificationReport { attempted, failures }
}

} // verus!
