//! The daemon loop's decisions: which reloads a poll triggers, which
//! stylesheet is in force, when peripherals are rescanned, and what is
//! rendered and when the loop sleeps. The program performs the actions and
//! reports what it observed as events.

use vstd::prelude::*;

verus! {

/// Interval between peripheral rescans, in nanoseconds (one minute).
pub const PERIPH_RESCAN_NANOS: u128 = 60_000_000_000;

/// Longest sleep between two looks at the page counter, in nanoseconds.
pub const PAGE_WAKE_NANOS: u128 = 100_000_000;

/// What the loop remembers between polls. File stamps are modification
/// times in nanoseconds since the epoch, `None` for a missing file.
#[derive(Debug, Clone, PartialEq, Eq)]
pub struct DaemonLoopState {
    /// Stamp of the user configuration file.
    pub config: Option<u128>,
    /// Stamps of the machine definition files, in order.
    pub machines: Vec<Option<u128>>,
    /// Stamp of the Plasma applet configuration.
    pub plasma: Option<u128>,
    /// Stamp of the published panel geometry.
    pub geom: Option<u128>,
    /// Stamp of the KDE colour configuration.
    pub kde: Option<u128>,
    /// Whether the light stylesheet is in force.
    pub light: bool,
    /// Whether the overlay stylesheet is in force.
    pub overlay: bool,
    /// Stamp of the stylesheet in force.
    pub css: Option<u128>,
    /// Stamp of the overlay stylesheet, when it is in force.
    pub overlay_css: Option<u128>,
    /// Monotonic instant of the last peripheral scan, in nanoseconds.
    pub periph_scan_at: Option<u128>,
    /// Tooltip page last rendered.
    pub page: usize,
}

/// What the program observed.
#[derive(Debug, Clone, PartialEq, Eq)]
pub enum DaemonEvent {
    /// The configuration sources at the start of a poll.
    Files {
        /// Stamp of the user configuration file.
        config: Option<u128>,
        /// Stamps of the machine definition files, in order.
        machines: Vec<Option<u128>>,
        /// Stamp of the Plasma applet configuration.
        plasma: Option<u128>,
        /// Stamp of the published panel geometry.
        geom: Option<u128>,
    },
    /// The colour scheme and the stylesheets, after any configuration reload.
    Style {
        /// Stamp of the KDE colour configuration.
        kde: Option<u128>,
        /// Whether the desktop colour scheme is light now.
        light: bool,
        /// Whether the configuration asks for the overlay stylesheet.
        overlay_wanted: bool,
        /// Stamp of the light stylesheet.
        light_css: Option<u128>,
        /// Stamp of the dark stylesheet.
        dark_css: Option<u128>,
        /// Stamp of the overlay stylesheet.
        overlay_css: Option<u128>,
    },
    /// The readings step of a poll.
    Poll {
        /// Monotonic instant of the poll, in nanoseconds.
        now: u128,
        /// Whether some configured peripheral is still missing.
        periph_wanted: bool,
        /// The tooltip page to show.
        page: usize,
        /// Whether that page is the top processes page.
        top_process: bool,
    },
    /// Time left before the next poll, in nanoseconds.
    Wait {
        /// Nanoseconds left.
        remaining: u128,
    },
    /// The page counter after a sleep.
    PageSeen {
        /// The tooltip page to show.
        page: usize,
        /// Whether that page is the top processes page.
        top_process: bool,
    },
}

/// What the program is to do, in order.
#[derive(Debug, Clone, Copy, PartialEq, Eq)]
pub enum DaemonAction {
    /// Reload the configuration and rediscover the hardware; on failure keep
    /// the previous ones.
    ReloadConfig,
    /// Cache the live panel geometry, then reload the configuration; on
    /// failure keep the previous one.
    RedetectGeometry,
    /// Read the light or dark stylesheet, with the overlay when asked.
    LoadCss {
        /// The light stylesheet rather than the dark one.
        light: bool,
        /// Append the overlay stylesheet.
        overlay: bool,
    },
    /// Rescan the peripherals.
    RescanPeripherals,
    /// Render and publish the panel.
    RenderPanel,
    /// Re-read the full top processes list.
    RefreshTopProcess,
    /// Render and publish the tooltip page.
    RenderTooltip {
        /// The page.
        page: usize,
    },
    /// Sleep.
    Sleep {
        /// Nanoseconds.
        nanos: u128,
    },
}

/// The loop state as values.
pub struct LoopView {
    pub config: Option<u128>,
    pub machines: Seq<Option<u128>>,
    pub plasma: Option<u128>,
    pub geom: Option<u128>,
    pub kde: Option<u128>,
    pub light: bool,
    pub overlay: bool,
    pub css: Option<u128>,
    pub overlay_css: Option<u128>,
    pub periph_scan_at: Option<u128>,
    pub page: nat,
}

/// An event as values.
pub enum EventView {
    Files { config: Option<u128>, machines: Seq<Option<u128>>, plasma: Option<u128>, geom: Option<u128> },
    Style {
        kde: Option<u128>,
        light: bool,
        overlay_wanted: bool,
        light_css: Option<u128>,
        dark_css: Option<u128>,
        overlay_css: Option<u128>,
    },
    Poll { now: u128, periph_wanted: bool, page: nat, top_process: bool },
    Wait { remaining: u128 },
    PageSeen { page: nat, top_process: bool },
}

impl View for DaemonLoopState {
    type V = LoopView;

    open spec fn view(&self) -> LoopView {
        LoopView {
            config: self.config,
            machines: self.machines@,
            plasma: self.plasma,
            geom: self.geom,
            kde: self.kde,
            light: self.light,
            overlay: self.overlay,
            css: self.css,
            overlay_css: self.overlay_css,
            periph_scan_at: self.periph_scan_at,
            page: self.page as nat,
        }
    }
}

impl View for DaemonEvent {
    type V = EventView;

    open spec fn view(&self) -> EventView {
        match self {
            DaemonEvent::Files { config, machines, plasma, geom } => EventView::Files {
                config: *config,
                machines: machines@,
                plasma: *plasma,
                geom: *geom,
            },
            DaemonEvent::Style { kde, light, overlay_wanted, light_css, dark_css, overlay_css } => EventView::Style {
                kde: *kde,
                light: *light,
                overlay_wanted: *overlay_wanted,
                light_css: *light_css,
                dark_css: *dark_css,
                overlay_css: *overlay_css,
            },
            DaemonEvent::Poll { now, periph_wanted, page, top_process } => EventView::Poll {
                now: *now,
                periph_wanted: *periph_wanted,
                page: *page as nat,
                top_process: *top_process,
            },
            DaemonEvent::Wait { remaining } => EventView::Wait { remaining: *remaining },
            DaemonEvent::PageSeen { page, top_process } => EventView::PageSeen {
                page: *page as nat,
                top_process: *top_process,
            },
        }
    }
}

/// The tooltip render of a page, after a refresh of the process list when
/// it is the top processes page.
pub open spec fn tooltip_actions(page: nat, top_process: bool) -> Seq<DaemonAction> {
    (if top_process {
        seq![DaemonAction::RefreshTopProcess]
    } else {
        Seq::empty()
    }) + seq![DaemonAction::RenderTooltip { page: page as usize }]
}

/// The loop's next state and actions for an event.
///
/// - Files: a change of the configuration or of any machine file reloads
///   the configuration; then a change of the applet configuration or of the
///   geometry redetects the geometry.
/// - Style: a changed colour configuration that flips the scheme selects
///   the other stylesheet; a change of the overlay wish adds or drops it;
///   a changed stamp of a stylesheet in force rereads it. Any of these loads
///   the stylesheets once.
/// - Poll: a missing peripheral is rescanned at most once a minute; the
///   process list is refreshed when the top processes page is shown; then
///   the panel and the page are rendered.
/// - Wait: sleep until the next poll, at most a tenth of a second at once.
/// - PageSeen: a page other than the one shown is rendered.
pub open spec fn daemon_next(s: LoopView, e: EventView) -> (LoopView, Seq<DaemonAction>) {
    match e {
        EventView::Files { config, machines, plasma, geom } => {
            let sources = config != s.config || machines != s.machines;
            let layout = plasma != s.plasma || geom != s.geom;
            (
                LoopView { config, machines, plasma, geom, ..s },
                (if sources {
                    seq![DaemonAction::ReloadConfig]
                } else {
                    Seq::empty()
                }) + (if layout {
                    seq![DaemonAction::RedetectGeometry]
                } else {
                    Seq::empty()
                }),
            )
        },
        EventView::Style { kde, light, overlay_wanted, light_css, dark_css, overlay_css } => {
            let flip = kde != s.kde && light != s.light;
            let now_light = if flip {
                light
            } else {
                s.light
            };
            let css_stamp = if now_light {
                light_css
            } else {
                dark_css
            };
            let overlay_stamp = if overlay_wanted {
                overlay_css
            } else {
                None
            };
            let reload = flip || overlay_wanted != s.overlay || (!flip && css_stamp != s.css) || (
            overlay_wanted == s.overlay && overlay_stamp != s.overlay_css);
            (
                LoopView {
                    kde,
                    light: now_light,
                    overlay: overlay_wanted,
                    css: css_stamp,
                    overlay_css: overlay_stamp,
                    ..s
                },
                if reload {
                    seq![DaemonAction::LoadCss { light: now_light, overlay: overlay_wanted }]
                } else {
                    Seq::empty()
                },
            )
        },
        EventView::Poll { now, periph_wanted, page, top_process } => {
            let due = periph_wanted && match s.periph_scan_at {
                None => true,
                Some(last) => now >= last && now - last >= PERIPH_RESCAN_NANOS,
            };
            (
                LoopView {
                    periph_scan_at: if due {
                        Some(now)
                    } else {
                        s.periph_scan_at
                    },
                    page,
                    ..s
                },
                (if due {
                    seq![DaemonAction::RescanPeripherals]
                } else {
                    Seq::empty()
                }) + (if top_process {
                    seq![DaemonAction::RefreshTopProcess]
                } else {
                    Seq::empty()
                }) + seq![DaemonAction::RenderPanel, DaemonAction::RenderTooltip { page: page as usize }],
            )
        },
        EventView::Wait { remaining } => (
            s,
            if remaining == 0 {
                Seq::empty()
            } else {
                seq![DaemonAction::Sleep {
                    nanos: if remaining < PAGE_WAKE_NANOS {
                        remaining
                    } else {
                        PAGE_WAKE_NANOS
                    },
                }]
            },
        ),
        EventView::PageSeen { page, top_process } => if page == s.page {
            (s, Seq::empty())
        } else {
            (LoopView { page, ..s }, tooltip_actions(page, top_process))
        },
    }
}

/// Looking again at what did not change does nothing: a second identical
/// file, style or page event right after the first asks for no action and
/// leaves the state as the first left it.
pub proof fn lemma_unchanged_is_quiet(s: LoopView, e: EventView)
    requires
        e is Files || e is Style || e is PageSeen,
    ensures
        daemon_next(daemon_next(s, e).0, e).1.len() == 0,
        daemon_next(daemon_next(s, e).0, e).0 == daemon_next(s, e).0,
{
}

fn same_stamps(a: &Vec<Option<u128>>, b: &Vec<Option<u128>>) -> (r: bool)
    ensures
        r == (a@ == b@),
{
    if a.len() != b.len() {
        return false;
    }
    let mut i: usize = 0;
    while i < a.len()
        invariant
            a@.len() == b@.len(),
            i <= a@.len(),
            forall|j: int| 0 <= j < i ==> a@[j] == b@[j],
        decreases a@.len() - i,
    {
        let x = a[i];
        let y = b[i];
        let same = match (x, y) {
            (Some(p), Some(q)) => p == q,
            (None, None) => true,
            _ => false,
        };
        if !same {
            return false;
        }
        i = i + 1;
    }
    assert(a@ =~= b@);
    true
}

fn same_stamp(a: Option<u128>, b: Option<u128>) -> (r: bool)
    ensures
        r == (a == b),
{
    match (a, b) {
        (Some(p), Some(q)) => p == q,
        (None, None) => true,
        _ => false,
    }
}

fn copy_stamps(v: &Vec<Option<u128>>) -> (r: Vec<Option<u128>>)
    ensures
        r@ == v@,
{
    let mut out: Vec<Option<u128>> = Vec::new();
    let mut i: usize = 0;
    while i < v.len()
        invariant
            i <= v@.len(),
            out@ == v@.take(i as int),
        decreases v@.len() - i,
    {
        out.push(v[i]);
        assert(out@ =~= v@.take(i + 1));
        i = i + 1;
    }
    assert(v@.take(v@.len() as int) =~= v@);
    out
}

fn tooltip_steps(actions: &mut Vec<DaemonAction>, page: usize, top_process: bool)
    ensures
        final(actions)@ == old(actions)@ + tooltip_actions(page as nat, top_process),
{
    if top_process {
        actions.push(DaemonAction::RefreshTopProcess);
    }
    actions.push(DaemonAction::RenderTooltip { page });
    assert(final(actions)@ =~= old(actions)@ + tooltip_actions(page as nat, top_process));
}

/// One decision of the daemon loop (see [`daemon_next`]).
pub fn daemon_tick(s: &DaemonLoopState, e: &DaemonEvent) -> (r: (DaemonLoopState, Vec<DaemonAction>))
    ensures
        (r.0@, r.1@) == daemon_next(s@, e@),
{
    let mut next = DaemonLoopState {
        config: s.config,
        machines: copy_stamps(&s.machines),
        plasma: s.plasma,
        geom: s.geom,
        kde: s.kde,
        light: s.light,
        overlay: s.overlay,
        css: s.css,
        overlay_css: s.overlay_css,
        periph_scan_at: s.periph_scan_at,
        page: s.page,
    };
    let mut actions: Vec<DaemonAction> = Vec::new();
    match e {
        DaemonEvent::Files { config, machines, plasma, geom } => {
            let sources = !same_stamp(*config, s.config) || !same_stamps(machines, &s.machines);
            let layout = !same_stamp(*plasma, s.plasma) || !same_stamp(*geom, s.geom);
            next.config = *config;
            next.machines = copy_stamps(machines);
            next.plasma = *plasma;
            next.geom = *geom;
            if sources {
                actions.push(DaemonAction::ReloadConfig);
            }
            if layout {
                actions.push(DaemonAction::RedetectGeometry);
            }
        },
        DaemonEvent::Style { kde, light, overlay_wanted, light_css, dark_css, overlay_css } => {
            let flip = !same_stamp(*kde, s.kde) && *light != s.light;
            let now_light = if flip { *light } else { s.light };
            let css_stamp = if now_light { *light_css } else { *dark_css };
            let overlay_stamp = if *overlay_wanted { *overlay_css } else { None };
            let reload = flip || *overlay_wanted != s.overlay || (!flip && !same_stamp(css_stamp, s.css)) || (
            *overlay_wanted == s.overlay && !same_stamp(overlay_stamp, s.overlay_css));
            next.kde = *kde;
            next.light = now_light;
            next.overlay = *overlay_wanted;
            next.css = css_stamp;
            next.overlay_css = overlay_stamp;
            if reload {
                actions.push(DaemonAction::LoadCss { light: now_light, overlay: *overlay_wanted });
            }
        },
        DaemonEvent::Poll { now, periph_wanted, page, top_process } => {
            let due = *periph_wanted && match s.periph_scan_at {
                None => true,
                Some(last) => *now >= last && *now - last >= PERIPH_RESCAN_NANOS,
            };
            if due {
                next.periph_scan_at = Some(*now);
                actions.push(DaemonAction::RescanPeripherals);
            }
            next.page = *page;
            if *top_process {
                actions.push(DaemonAction::RefreshTopProcess);
            }
            actions.push(DaemonAction::RenderPanel);
            actions.push(DaemonAction::RenderTooltip { page: *page });
        },
        DaemonEvent::Wait { remaining } => {
            if *remaining > 0 {
                let nanos = if *remaining < PAGE_WAKE_NANOS { *remaining } else { PAGE_WAKE_NANOS };
                actions.push(DaemonAction::Sleep { nanos });
            }
        },
        DaemonEvent::PageSeen { page, top_process } => {
            if *page != s.page {
                next.page = *page;
                tooltip_steps(&mut actions, *page, *top_process);
            }
        },
    }
    proof {
        let t = daemon_next(s@, e@);
        assert(actions@ =~= t.1);
        assert(next@ == t.0);
    }
    (next, actions)
}

} // verus!
