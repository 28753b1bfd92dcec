//! Typed configuration values, item guardrails, and the settings the
//! renderers read.

use vstd::prelude::*;

use crate::domain::registry::{
    misplaced_items, panel_misplaced, selected, tooltip_misplaced, unknown_entry, unknown_item_names,
};
use crate::text::{insert_sorted, kept, owned, str_eq, strictly_sorted, views};

pub mod assets;
pub mod tables;
pub mod geometry;

verus! {

/// Built-in lower bound for the tooltip width (monospace columns).
pub const TOOLTIP_WIDTH_FLOOR: i32 = 30;

/// `cpu_usage:braille`/`mem_usage:braille` pack this many samples per char.
pub const BRAILLE_LENGTH_MULTIPLIER: i32 = 2;

/// Tooltip deep-dive pages: which ones the wheel cycles through, and the
/// only knob `graphs` exposes.
#[derive(Debug, Clone, PartialEq)]
pub struct PagesConfig {
    /// Deep-dive pages in wheel order; this lists what follows page 0.
    pub order: Vec<String>,
    /// Samples the graphs page's history charts keep.
    pub graph_history_length: i32,
    /// Graphs page PNG width in px; derived from the resolved tooltip width.
    pub graph_width: i32,
}

impl Default for PagesConfig {
    /// The built-in page settings.
    fn default() -> (r: Self)
        ensures
            r.order@.len() == 4,
            r.order@[0]@ == "processes"@,
            r.order@[1]@ == "cpu_cores"@,
            r.order@[2]@ == "connections"@,
            r.order@[3]@ == "fastfetch"@,
            r.graph_history_length == 60,
            r.graph_width == 315,
    {
        PagesConfig {
            order: vec![owned("processes"), owned("cpu_cores"), owned("connections"), owned("fastfetch")],
            graph_history_length: 60,
            graph_width: 315,
        }
    }
}

/// Visual knobs for the `:bar` form.
#[derive(Debug, Clone, Copy, PartialEq, Eq, Structural)]
pub struct BarConfig {
    /// Bar width in monospace columns.
    pub width: i32,
    /// Strip thickness in px (font-size of the bar glyphs).
    pub height: i32,
}

impl Default for BarConfig {
    /// The built-in bar settings.
    fn default() -> (r: Self)
        ensures
            r == (BarConfig { width: 22, height: 0 }),
    {
        BarConfig { width: 22, height: 0 }
    }
}

/// Visual knobs for the `:spark` form (block sparkline).
#[derive(Debug, Clone, Copy, PartialEq, Eq, Structural)]
pub struct SparkConfig {
    /// cpu_usage:spark length in chars.
    pub cpu_spark_length: i32,
    /// mem_usage:spark length in chars.
    pub mem_spark_length: i32,
}

impl Default for SparkConfig {
    /// The built-in spark settings.
    fn default() -> (r: Self)
        ensures
            r == (SparkConfig { cpu_spark_length: 5, mem_spark_length: 5 }),
    {
        SparkConfig { cpu_spark_length: 5, mem_spark_length: 5 }
    }
}

/// Visual knobs for the `:braille` form.
#[derive(Debug, Clone, Copy, PartialEq, Eq, Structural)]
pub struct BrailleConfig {
    /// cpu_usage:braille length in chars (2 samples/char).
    pub cpu_braille_length: i32,
    /// mem_usage:braille length in chars.
    pub mem_braille_length: i32,
}

impl Default for BrailleConfig {
    /// The built-in braille settings.
    fn default() -> (r: Self)
        ensures
            r == (BrailleConfig { cpu_braille_length: 5, mem_braille_length: 5 }),
    {
        BrailleConfig { cpu_braille_length: 5, mem_braille_length: 5 }
    }
}

/// Visual knobs for the `:bar` form rendered as a column in the horizontal
/// panel.
#[derive(Debug, Clone, Copy, PartialEq, Eq, Structural)]
pub struct ColumnConfig {
    /// Column thickness in glyphs.
    pub width: i32,
    /// Block glyph font-size in px (0 inherits).
    pub height: i32,
}

impl Default for ColumnConfig {
    /// The built-in column settings.
    fn default() -> (r: Self)
        ensures
            r == (ColumnConfig { width: 1, height: 0 }),
    {
        ColumnConfig { width: 1, height: 0 }
    }
}

/// Notification enable flags.
#[derive(Debug, Clone, Copy, PartialEq, Eq, Structural)]
pub struct NotificationConfig {
    /// disk_usage notification enabled.
    pub disk_usage: bool,
    /// disk_smart notification enabled.
    pub disk_smart: bool,
    /// cpu_temp notification enabled.
    pub cpu_temp: bool,
    /// gpu_nvidia_temp notification enabled.
    pub gpu_nvidia_temp: bool,
    /// hd_temp notification enabled.
    pub hd_temp: bool,
    /// battery_sys notification enabled.
    pub battery_sys: bool,
    /// battery_mouse notification enabled.
    pub battery_mouse: bool,
    /// battery_kbd notification enabled.
    pub battery_kbd: bool,
    /// server_check notification enabled.
    pub server_check: bool,
    /// load_avg notification enabled.
    pub load_avg: bool,
}

impl Default for NotificationConfig {
    /// The built-in flags: disk, SMART, disk temperature and battery alerts
    /// on; CPU/GPU temperature, server and load alerts off.
    fn default() -> (r: Self)
        ensures
            r == (NotificationConfig {
                disk_usage: true,
                disk_smart: true,
                cpu_temp: false,
                gpu_nvidia_temp: false,
                hd_temp: true,
                battery_sys: true,
                battery_mouse: true,
                battery_kbd: true,
                server_check: false,
                load_avg: false,
            }),
    {
        NotificationConfig {
            disk_usage: true,
            disk_smart: true,
            cpu_temp: false,
            gpu_nvidia_temp: false,
            hd_temp: true,
            battery_sys: true,
            battery_mouse: true,
            battery_kbd: true,
            server_check: false,
            load_avg: false,
        }
    }
}

/// Notification thresholds (the load-average fraction, a float, is applied
/// where the load is read).
#[derive(Debug, Clone, Copy, PartialEq, Eq, Structural)]
pub struct NotifyThresholds {
    /// disk_usage notify threshold.
    pub disk_usage: i32,
    /// cpu_temp notify threshold.
    pub cpu_temp: i32,
    /// gpu_nvidia_temp notify threshold.
    pub gpu_nvidia_temp: i32,
    /// hd_temp notify threshold.
    pub hd_temp: i32,
    /// battery_sys notify threshold.
    pub battery_sys: i32,
    /// battery_mouse notify threshold.
    pub battery_mouse: i32,
    /// battery_kbd notify threshold.
    pub battery_kbd: i32,
    /// Seconds a temperature must hold over its threshold to notify.
    pub temp_sustain_seconds: i32,
    /// Degrees a temperature must fall below its threshold to re-arm.
    pub temp_hysteresis: i32,
    /// Minutes the load average must hold over its threshold to notify.
    pub load_avg_minutes: i32,
}

impl Default for NotifyThresholds {
    /// The built-in thresholds.
    fn default() -> (r: Self)
        ensures
            r == (NotifyThresholds {
                disk_usage: 80,
                cpu_temp: 80,
                gpu_nvidia_temp: 80,
                hd_temp: 60,
                battery_sys: 10,
                battery_mouse: 20,
                battery_kbd: 20,
                temp_sustain_seconds: 60,
                temp_hysteresis: 5,
                load_avg_minutes: 10,
            }),
    {
        NotifyThresholds {
            disk_usage: 80,
            cpu_temp: 80,
            gpu_nvidia_temp: 80,
            hd_temp: 60,
            battery_sys: 10,
            battery_mouse: 20,
            battery_kbd: 20,
            temp_sustain_seconds: 60,
            temp_hysteresis: 5,
            load_avg_minutes: 10,
        }
    }
}

/// Manual hwmon sensor specs in `'chip|file'` format.
#[derive(Debug, Clone, PartialEq, Eq, Default)]
pub struct SensorOverrides {
    /// cpu_temp hwmon spec.
    pub cpu_temp: Option<String>,
    /// fan1_speed hwmon spec.
    pub fan1_speed: Option<String>,
    /// fan2_speed hwmon spec.
    pub fan2_speed: Option<String>,
    /// fan3_speed hwmon spec.
    pub fan3_speed: Option<String>,
    /// fan4_speed hwmon spec.
    pub fan4_speed: Option<String>,
    /// hd1_temp hwmon spec.
    pub hd1_temp: Option<String>,
    /// hd2_temp hwmon spec.
    pub hd2_temp: Option<String>,
    /// hd3_temp hwmon spec.
    pub hd3_temp: Option<String>,
    /// hd4_temp hwmon spec.
    pub hd4_temp: Option<String>,
}

/// `"auto"` or an explicit list of mountpoints.
#[derive(Debug, Clone, PartialEq, Eq, Default)]
pub enum Mounts {
    /// Discover mounts automatically.
    #[default]
    Auto,
    /// An explicit list of mountpoints.
    Explicit(Vec<String>),
}

impl Mounts {
    /// Reads a mount selection given as one string: `"auto"` selects
    /// discovery; any other string is a one-element list.
    pub fn from_text(value: &str) -> (r: Mounts)
        ensures
            value@ == "auto"@ ==> r is Auto,
            value@ != "auto"@ ==> (r matches Mounts::Explicit(v) && v@.len() == 1 && v@[0]@
                == value@),
    {
        if str_eq(value, "auto") {
            Mounts::Auto
        } else {
            Mounts::Explicit(vec![owned(value)])
        }
    }
}

/// Peripheral battery hints (Unifying/Bolt/name overrides).
#[derive(Debug, Clone, PartialEq, Eq, Default)]
pub struct BatteryConfig {
    /// Mouse Unifying receiver serial.
    pub mouse_unifying: Option<String>,
    /// Keyboard Unifying receiver serial.
    pub kbd_unifying: Option<String>,
    /// Mouse Bolt device index.
    pub mouse_bolt: Option<i32>,
    /// Keyboard Bolt device index.
    pub kbd_bolt: Option<i32>,
    /// Mouse device-name override.
    pub mouse_name: Option<String>,
    /// Keyboard device-name override.
    pub kbd_name: Option<String>,
}

/// System-updates status, read from a file.
#[derive(Debug, Clone, PartialEq, Eq, Default)]
pub struct SystemUpdatesConfig {
    /// Path written by an external updates job; empty = disabled.
    pub file: String,
}

/// Server reachability, read from a file.
#[derive(Debug, Clone, PartialEq, Eq, Default)]
pub struct ServerCheckConfig {
    /// Path written by an external ping job; empty = disabled.
    pub file: String,
}


/// Why a configuration could not be loaded.
#[derive(Debug, Clone, PartialEq, Eq)]
pub enum ConfigError {
    /// A config file could not be read.
    Io {
        /// What the system reported.
        detail: String,
    },
    /// A config file is not valid TOML.
    Toml {
        /// What the parser reported.
        detail: String,
    },
}

impl ConfigError {
    /// The message shown for this failure.
    pub fn message(&self) -> (r: String)
        ensures
            r@ == match self {
                ConfigError::Io { detail } => "config I/O failure: "@ + detail@,
                ConfigError::Toml { detail } => "config parse failure: "@ + detail@,
            },
    {
        let (head, detail) = match self {
            ConfigError::Io { detail } => ("config I/O failure: ", detail),
            ConfigError::Toml { detail } => ("config parse failure: ", detail),
        };
        let mut out = crate::text::owned(head);
        crate::text::push_str(&mut out, detail.as_str());
        proof {
            reveal_strlit("config I/O failure: ");
            reveal_strlit("config parse failure: ");
        }
        out
    }
}

/// A renderable section of a panel/tooltip surface.
#[derive(Debug, Clone, PartialEq, Eq)]
pub struct Section {
    /// Section key in the source TOML.
    pub key: String,
    /// Title rendered only in the tooltip (empty for panel sections).
    pub title: String,
    /// Item tokens in render order.
    pub items: Vec<String>,
}

/// A surface (panel or tooltip): an ordered list of sections, plus the
/// panel-only `glyphs` toggle.
#[derive(Debug, Clone, PartialEq, Eq)]
pub struct Surface {
    /// Sections in render order.
    pub sections: Vec<Section>,
    /// PANEL only: show the label glyph next to each value.
    pub glyphs: bool,
}

/// The item tokens of every section of a surface.
pub open spec fn surface_items(s: Surface) -> Set<Seq<char>> {
    Set::new(
        |x: Seq<char>|
            exists|i: int, j: int|
                0 <= i < s.sections@.len() && 0 <= j < s.sections@[i].items@.len()
                    && #[trigger] s.sections@[i].items@[j]@ == x,
    )
}

impl Default for Surface {
    /// No sections; the panel shows glyphs.
    fn default() -> (r: Self)
        ensures
            r.sections@.len() == 0,
            r.glyphs,
    {
        Surface { sections: Vec::new(), glyphs: true }
    }
}

impl Surface {
    /// Returns `true` when `name` is a member of any section.
    pub fn has(&self, name: &str) -> (r: bool)
        ensures
            r == surface_items(*self).contains(name@),
    {
        let mut i: usize = 0;
        while i < self.sections.len()
            invariant
                i <= self.sections@.len(),
                forall|a: int, b: int|
                    0 <= a < i && 0 <= b < self.sections@[a].items@.len()
                        ==> #[trigger] self.sections@[a].items@[b]@ != name@,
            decreases self.sections@.len() - i,
        {
            let items = &self.sections[i].items;
            let mut j: usize = 0;
            while j < items.len()
                invariant
                    j <= items@.len(),
                    i < self.sections@.len(),
                    items == &self.sections@[i as int].items,
                    forall|b: int| 0 <= b < j ==> #[trigger] items@[b]@ != name@,
                decreases items@.len() - j,
            {
                if str_eq(items[j].as_str(), name) {
                    assert(self.sections@[i as int].items@[j as int]@ == name@);
                    assert(surface_items(*self).contains(name@));
                    return true;
                }
                j = j + 1;
            }
            i = i + 1;
        }
        proof {
            if surface_items(*self).contains(name@) {
                let (a, b) = choose|a: int, b: int|
                    0 <= a < self.sections@.len() && 0 <= b < self.sections@[a].items@.len()
                        && #[trigger] self.sections@[a].items@[b]@ == name@;
                assert(self.sections@[a].items@[b]@ != name@);
            }
        }
        false
    }

    /// Returns every item token across the sections, sorted and without
    /// duplicates.
    pub fn item_set(&self) -> (r: Vec<String>)
        ensures
            strictly_sorted(views(r@)),
            views(r@).to_set() == surface_items(*self),
    {
        let mut out: Vec<String> = Vec::new();
        let mut i: usize = 0;
        while i < self.sections.len()
            invariant
                i <= self.sections@.len(),
                strictly_sorted(views(out@)),
                views(out@).to_set() == Set::new(
                    |x: Seq<char>|
                        exists|a: int, b: int|
                            0 <= a < i && 0 <= b < self.sections@[a].items@.len()
                                && #[trigger] self.sections@[a].items@[b]@ == x,
                ),
            decreases self.sections@.len() - i,
        {
            let items = &self.sections[i].items;
            let mut j: usize = 0;
            while j < items.len()
                invariant
                    j <= items@.len(),
                    i < self.sections@.len(),
                    items == &self.sections@[i as int].items,
                    strictly_sorted(views(out@)),
                    views(out@).to_set() == Set::new(
                        |x: Seq<char>|
                            (exists|a: int, b: int|
                                0 <= a < i && 0 <= b < self.sections@[a].items@.len()
                                    && #[trigger] self.sections@[a].items@[b]@ == x) || (exists|b: int|
                                0 <= b < j && #[trigger] items@[b]@ == x),
                    ),
                decreases items@.len() - j,
            {
                let ghost before = views(out@).to_set();
                insert_sorted(&mut out, items[j].clone());
                proof {
                    let target = Set::new(
                        |x: Seq<char>|
                            (exists|a: int, b: int|
                                0 <= a < i && 0 <= b < self.sections@[a].items@.len()
                                    && #[trigger] self.sections@[a].items@[b]@ == x) || (exists|b: int|
                                0 <= b < j + 1 && #[trigger] items@[b]@ == x),
                    );
                    assert forall|x: Seq<char>| #[trigger] target.contains(x) <==> before.insert(items@[j as int]@).contains(x) by {
                        if exists|b: int| 0 <= b < j + 1 && #[trigger] items@[b]@ == x {
                            let b = choose|b: int| 0 <= b < j + 1 && #[trigger] items@[b]@ == x;
                            if b < j {
                                assert(before.contains(x));
                            }
                        }
                    }
                    assert(views(out@).to_set() =~= target);
                }
                j = j + 1;
            }
            proof {
                let target = Set::new(
                    |x: Seq<char>|
                        exists|a: int, b: int|
                            0 <= a < i + 1 && 0 <= b < self.sections@[a].items@.len()
                                && #[trigger] self.sections@[a].items@[b]@ == x,
                );
                assert forall|x: Seq<char>| #[trigger] target.contains(x) <==> views(out@).to_set().contains(x) by {
                    if target.contains(x) {
                        let (a, b) = choose|a: int, b: int|
                            0 <= a < i + 1 && 0 <= b < self.sections@[a].items@.len()
                                && #[trigger] self.sections@[a].items@[b]@ == x;
                        if a == i {
                            assert(items@[b]@ == x);
                        }
                    }
                }
                assert(views(out@).to_set() =~= target);
            }
            i = i + 1;
        }
        proof {
            assert(views(out@).to_set() =~= surface_items(*self));
        }
        out
    }
}


/// `after` is `before` with each section's items narrowed to those that
/// satisfy `keep`; keys, titles, section count and the glyph flag stay.
pub open spec fn narrowed(before: Surface, after: Surface, keep: spec_fn(Seq<char>) -> bool) -> bool {
    &&& after.glyphs == before.glyphs
    &&& after.sections@.len() == before.sections@.len()
    &&& forall|k: int|
        0 <= k < before.sections@.len() ==> {
            &&& (#[trigger] after.sections@[k]).key@ == before.sections@[k].key@
            &&& after.sections@[k].title@ == before.sections@[k].title@
            &&& views(after.sections@[k].items@) == kept(views(before.sections@[k].items@), keep)
        }
}

/// The item tokens of `s` that satisfy `p`.
pub open spec fn surface_items_where(s: Surface, p: spec_fn(Seq<char>) -> bool) -> Set<Seq<char>> {
    surface_items(s).filter(p)
}

/// Two predicates that agree on every entry of `s` keep the same entries.
proof fn lemma_kept_agree(s: Seq<Seq<char>>, p: spec_fn(Seq<char>) -> bool, q: spec_fn(Seq<char>) -> bool)
    requires
        forall|i: int| 0 <= i < s.len() ==> p(#[trigger] s[i]) == q(s[i]),
    ensures
        kept(s, p) == kept(s, q),
    decreases s.len(),
{
    if s.len() > 0 {
        let t = s.drop_last();
        assert forall|i: int| 0 <= i < t.len() implies p(#[trigger] t[i]) == q(t[i]) by {
            assert(t[i] == s[i]);
        }
        lemma_kept_agree(t, p, q);
        assert(p(s[s.len() - 1]) == q(s[s.len() - 1]));
    }
}

/// Whether `x` is the text of one of `bad`.
fn is_listed(bad: &[String], x: &str) -> (r: bool)
    ensures
        r == views(bad@).contains(x@),
{
    let mut i: usize = 0;
    while i < bad.len()
        invariant
            i <= bad@.len(),
            forall|k: int| 0 <= k < i ==> #[trigger] bad@[k]@ != x@,
        decreases bad@.len() - i,
    {
        if str_eq(bad[i].as_str(), x) {
            assert(views(bad@)[i as int] == x@);
            return true;
        }
        i = i + 1;
    }
    proof {
        if views(bad@).contains(x@) {
            let k = choose|k: int| 0 <= k < views(bad@).len() && views(bad@)[k] == x@;
            assert(bad@[k]@ != x@);
        }
    }
    false
}

/// `items` without the entries listed in `bad`, in their order.
fn without_listed(items: &Vec<String>, bad: &[String]) -> (r: Vec<String>)
    ensures
        views(r@) == kept(views(items@), |x: Seq<char>| !views(bad@).contains(x)),
{
    let ghost keep = |x: Seq<char>| !views(bad@).contains(x);
    let mut out: Vec<String> = Vec::new();
    let mut j: usize = 0;
    while j < items.len()
        invariant
            j <= items@.len(),
            keep == (|x: Seq<char>| !views(bad@).contains(x)),
            views(out@) == kept(views(items@).take(j as int), keep),
        decreases items@.len() - j,
    {
        let listed = is_listed(bad, items[j].as_str());
        proof {
            let t = views(items@).take(j as int + 1);
            assert(t.drop_last() =~= views(items@).take(j as int));
            assert(t.last() == items@[j as int]@);
        }
        if !listed {
            out.push(items[j].clone());
        }
        proof {
            assert(views(out@) =~= kept(views(items@).take(j as int + 1), keep));
        }
        j = j + 1;
    }
    proof {
        assert(views(items@).take(items@.len() as int) =~= views(items@));
    }
    out
}

/// Removes the entries listed in `bad` from every section of `surface`.
/// An emptied section stays in place; the render collapses empty ones.
pub fn drop_items(surface: &mut Surface, bad: &[String])
    ensures
        narrowed(*old(surface), *final(surface), |x: Seq<char>| !views(bad@).contains(x)),
{
    let ghost keep = |x: Seq<char>| !views(bad@).contains(x);
    let ghost before = *surface;
    let mut sections: Vec<Section> = Vec::new();
    let mut k: usize = 0;
    while k < surface.sections.len()
        invariant
            *surface == before,
            k <= before.sections@.len(),
            keep == (|x: Seq<char>| !views(bad@).contains(x)),
            sections@.len() == k,
            forall|m: int|
                0 <= m < k ==> {
                    &&& (#[trigger] sections@[m]).key@ == before.sections@[m].key@
                    &&& sections@[m].title@ == before.sections@[m].title@
                    &&& views(sections@[m].items@) == kept(views(before.sections@[m].items@), keep)
                },
        decreases before.sections@.len() - k,
    {
        let section = &surface.sections[k];
        let items = without_listed(&section.items, bad);
        sections.push(Section { key: section.key.clone(), title: section.title.clone(), items });
        k = k + 1;
    }
    surface.sections = sections;
}

/// Drops the section entries that are neither separators nor known items
/// (a typo in the configuration), from both surfaces. Returns the dropped
/// tokens of the panel and of the tooltip, each sorted and without
/// duplicates, for the caller to report.
pub fn drop_unknown_items(panel: &mut Surface, tooltip: &mut Surface) -> (r: (Vec<String>, Vec<String>))
    ensures
        strictly_sorted(views(r.0@)),
        strictly_sorted(views(r.1@)),
        views(r.0@).to_set() == surface_items_where(*old(panel), |x: Seq<char>| unknown_entry(x)),
        views(r.1@).to_set() == surface_items_where(*old(tooltip), |x: Seq<char>| unknown_entry(x)),
        narrowed(*old(panel), *final(panel), |x: Seq<char>| !unknown_entry(x)),
        narrowed(*old(tooltip), *final(tooltip), |x: Seq<char>| !unknown_entry(x)),
{
    let panel_items = panel.item_set();
    let panel_strs = as_strs(&panel_items);
    let panel_bad = unknown_item_names(panel_strs.as_slice());
    let tooltip_items = tooltip.item_set();
    let tooltip_strs = as_strs(&tooltip_items);
    let tooltip_bad = unknown_item_names(tooltip_strs.as_slice());
    proof {
        lemma_selected_items(*panel, panel_items@, panel_strs@, |x: Seq<char>| unknown_entry(x));
        lemma_selected_items(*tooltip, tooltip_items@, tooltip_strs@, |x: Seq<char>| unknown_entry(x));
    }
    narrow(panel, &panel_bad, Ghost(|x: Seq<char>| unknown_entry(x)), Ghost(|x: Seq<char>| !unknown_entry(x)));
    narrow(tooltip, &tooltip_bad, Ghost(|x: Seq<char>| unknown_entry(x)), Ghost(|x: Seq<char>| !unknown_entry(x)));
    (panel_bad, tooltip_bad)
}

/// Drops the items placed on a surface that does not admit them: entries
/// that no panel orientation admits leave the panel, entries the tooltip
/// does not admit leave the tooltip. Returns the dropped tokens of the panel
/// and of the tooltip, each sorted and without duplicates.
pub fn drop_misplaced_items(panel: &mut Surface, tooltip: &mut Surface) -> (r: (Vec<String>, Vec<String>))
    ensures
        strictly_sorted(views(r.0@)),
        strictly_sorted(views(r.1@)),
        views(r.0@).to_set() == surface_items_where(*old(panel), |x: Seq<char>| panel_misplaced(x)),
        views(r.1@).to_set() == surface_items_where(*old(tooltip), |x: Seq<char>| tooltip_misplaced(x)),
        narrowed(*old(panel), *final(panel), |x: Seq<char>| !panel_misplaced(x)),
        narrowed(*old(tooltip), *final(tooltip), |x: Seq<char>| !tooltip_misplaced(x)),
{
    let panel_items = panel.item_set();
    let panel_strs = as_strs(&panel_items);
    let tooltip_items = tooltip.item_set();
    let tooltip_strs = as_strs(&tooltip_items);
    let (panel_bad, tooltip_bad) = misplaced_items(panel_strs.as_slice(), tooltip_strs.as_slice());
    proof {
        lemma_selected_items(*panel, panel_items@, panel_strs@, |x: Seq<char>| panel_misplaced(x));
        lemma_selected_items(*tooltip, tooltip_items@, tooltip_strs@, |x: Seq<char>| tooltip_misplaced(x));
    }
    narrow(panel, &panel_bad, Ghost(|x: Seq<char>| panel_misplaced(x)), Ghost(|x: Seq<char>| !panel_misplaced(x)));
    narrow(tooltip, &tooltip_bad, Ghost(|x: Seq<char>| tooltip_misplaced(x)), Ghost(|x: Seq<char>| !tooltip_misplaced(x)));
    (panel_bad, tooltip_bad)
}

/// Borrows each string of `v` as a `&str`.
fn as_strs(v: &Vec<String>) -> (r: Vec<&str>)
    ensures
        r@.len() == v@.len(),
        forall|i: int| 0 <= i < v@.len() ==> (#[trigger] r@[i])@ == v@[i]@,
{
    let mut out: Vec<&str> = Vec::new();
    let mut i: usize = 0;
    while i < v.len()
        invariant
            i <= v@.len(),
            out@.len() == i,
            forall|k: int| 0 <= k < i ==> (#[trigger] out@[k])@ == v@[k]@,
        decreases v@.len() - i,
    {
        out.push(v[i].as_str());
        i = i + 1;
    }
    out
}

/// The selection made over a surface's item set is the surface's items
/// that satisfy the predicate.
proof fn lemma_selected_items(
    s: Surface,
    items: Seq<String>,
    strs: Seq<&str>,
    p: spec_fn(Seq<char>) -> bool,
)
    requires
        views(items).to_set() == surface_items(s),
        strs.len() == items.len(),
        forall|i: int| 0 <= i < items.len() ==> (#[trigger] strs[i])@ == items[i]@,
    ensures
        selected(strs, p) == surface_items_where(s, p),
{
    assert forall|x: Seq<char>| #[trigger] selected(strs, p).contains(x) <==> surface_items_where(s, p).contains(x) by {
        if selected(strs, p).contains(x) {
            let i = choose|i: int| 0 <= i < strs.len() && strs[i]@ == x && p(x);
            assert(views(items)[i] == x);
            assert(views(items).to_set().contains(x));
        }
        if surface_items_where(s, p).contains(x) {
            assert(views(items).to_set().contains(x));
            let i = choose|i: int| 0 <= i < views(items).len() && views(items)[i] == x;
            assert(strs[i]@ == x);
        }
    }
    assert(selected(strs, p) =~= surface_items_where(s, p));
}

/// Drops the entries listed in `bad` from `surface`, where `bad` lists
/// exactly the surface's items that satisfy `p`.
fn narrow(
    surface: &mut Surface,
    bad: &Vec<String>,
    Ghost(p): Ghost<spec_fn(Seq<char>) -> bool>,
    Ghost(want): Ghost<spec_fn(Seq<char>) -> bool>,
)
    requires
        views(bad@).to_set() == surface_items_where(*old(surface), p),
        forall|x: Seq<char>| #[trigger] want(x) == !p(x),
    ensures
        narrowed(*old(surface), *final(surface), want),
{
    let ghost before = *surface;
    drop_items(surface, bad.as_slice());
    proof {
        let keep = |x: Seq<char>| !views(bad@).contains(x);
        assert forall|k: int| 0 <= k < before.sections@.len() implies
            views((#[trigger] surface.sections@[k]).items@) == kept(views(before.sections@[k].items@), want) by {
            let s = views(before.sections@[k].items@);
            assert forall|i: int| 0 <= i < s.len() implies keep(#[trigger] s[i]) == want(s[i]) by {
                assert(surface_items(before).contains(s[i]));
                if views(bad@).contains(s[i]) {
                    assert(views(bad@).to_set().contains(s[i]));
                } else {
                    assert(!views(bad@).to_set().contains(s[i]));
                }
            }
            lemma_kept_agree(s, keep, want);
        }
    }
}

} // verus!
