//! Runtime file locations, shared by the daemon, the `page` command, and the
//! applet.
//!
//! Everything the daemon publishes for the widget lives under one per-user
//! runtime directory:
//!
//! ```text
//! <runtime>/            <- watched: the two HTML files, nothing else
//!     panel.html
//!     tooltip.html
//!     state/            <- not watched: page counter, geometry, lock
//!         geom
//!         page
//!         npages
//!         page.lock
//! ```
//!
//! State files change on every wheel notch and every panel resize; keeping
//! them in a sibling means those writes never wake the watcher. Each path is
//! computed from the runtime root it lives under.

use vstd::prelude::*;

use crate::text::{decimal, join_path, owned, path_join, push_u64};

pub mod page;

verus! {

/// The runtime root: `$XDG_RUNTIME_DIR/pirostats` when that variable is set
/// and non-empty, else `/tmp/pirostats-<uid>`.
pub open spec fn runtime_root(xdg_runtime_dir: Option<Seq<char>>, uid: nat) -> Seq<char> {
    match xdg_runtime_dir {
        Some(x) => if x.len() > 0 {
            path_join(x, "pirostats"@)
        } else {
            "/tmp/pirostats-"@ + decimal(uid)
        },
        None => "/tmp/pirostats-"@ + decimal(uid),
    }
}

/// Returns the per-user runtime root (see [`runtime_root`]).
pub fn runtime_dir_for(xdg_runtime_dir: Option<&str>, uid: u32) -> (r: String)
    ensures
        r@ == runtime_root(match xdg_runtime_dir {
            Some(x) => Some(x@),
            None => None,
        }, uid as nat),
{
    if let Some(x) = xdg_runtime_dir {
        if x.unicode_len() > 0 {
            return join_path(x, "pirostats");
        }
    }
    let mut out = owned("/tmp/pirostats-");
    push_u64(&mut out, uid as u64);
    out
}

/// Returns the runtime `state/` subtree holding the page counter, geometry,
/// and the lock that serializes concurrent wheel processes.
pub fn state_dir(runtime: &str) -> (r: String)
    ensures
        r@ == path_join(runtime@, "state"@),
{
    join_path(runtime, "state")
}

/// Returns the watched panel HTML path read by the applet.
pub fn panel_file(runtime: &str) -> (r: String)
    ensures
        r@ == path_join(runtime@, "panel.html"@),
{
    join_path(runtime, "panel.html")
}

/// Returns the watched tooltip HTML path read by the applet.
pub fn tooltip_file(runtime: &str) -> (r: String)
    ensures
        r@ == path_join(runtime@, "tooltip.html"@),
{
    join_path(runtime, "tooltip.html")
}

/// Returns the applet-published geometry path under `state/`.
pub fn geom_file(runtime: &str) -> (r: String)
    ensures
        r@ == path_join(path_join(runtime@, "state"@), "geom"@),
{
    let state = state_dir(runtime);
    join_path(state.as_str(), "geom")
}

/// Returns the tooltip page counter path under `state/`.
pub fn page_file(runtime: &str) -> (r: String)
    ensures
        r@ == path_join(path_join(runtime@, "state"@), "page"@),
{
    let state = state_dir(runtime);
    join_path(state.as_str(), "page")
}

/// Returns the published page-count path under `state/`.
pub fn npages_file(runtime: &str) -> (r: String)
    ensures
        r@ == path_join(path_join(runtime@, "state"@), "npages"@),
{
    let state = state_dir(runtime);
    join_path(state.as_str(), "npages")
}

/// Returns the lock path under `state/` that serializes concurrent wheel
/// processes.
pub fn lock_file(runtime: &str) -> (r: String)
    ensures
        r@ == path_join(path_join(runtime@, "state"@), "page.lock"@),
{
    let state = state_dir(runtime);
    join_path(state.as_str(), "page.lock")
}

} // verus!
