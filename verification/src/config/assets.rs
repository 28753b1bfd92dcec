//! Asset root resolution: the shipped tree and the user's writable XDG dir.
//!
//! The functions here take the environment's values as arguments (`None`
//! for an unset variable), so the choice among them is independent of the
//! host.

use vstd::prelude::*;

use crate::text::{join_path, owned, path_join, push_str};

verus! {

/// Name of the variable that overrides the shipped-tree root for packaged
/// installs.
pub const PIROSTATS_CODE_ROOT_ENV: &'static str = "PIROSTATS_CODE_ROOT";

/// A variable's value when it is set and non-empty.
pub open spec fn set_value(v: Option<Seq<char>>) -> Option<Seq<char>> {
    match v {
        Some(s) => if s.len() > 0 {
            Some(s)
        } else {
            None
        },
        None => None,
    }
}

/// The text of an optional string slice.
pub open spec fn opt_text(v: Option<&str>) -> Option<Seq<char>> {
    match v {
        Some(s) => Some(s@),
        None => None,
    }
}

fn nonempty<'a>(v: Option<&'a str>) -> (r: Option<&'a str>)
    ensures
        opt_text(r) == set_value(opt_text(v)),
{
    match v {
        Some(s) => if s.unicode_len() > 0 {
            Some(s)
        } else {
            None
        },
        None => None,
    }
}

/// Returns the shipped asset tree: the override when it is set and
/// non-empty, else the directory above the crate the program was built
/// from (`manifest_dir` joined with `..`).
pub fn compute_code_root(custom: Option<&str>, manifest_dir: &str) -> (r: String)
    ensures
        r@ == match set_value(opt_text(custom)) {
            Some(c) => c,
            None => manifest_dir@ + "/.."@,
        },
{
    match nonempty(custom) {
        Some(value) => owned(value),
        None => {
            let mut root = owned(manifest_dir);
            push_str(&mut root, "/..");
            proof {
                reveal_strlit("/..");
            }
            root
        },
    }
}

/// Returns the user's home directory: `$HOME` when set and non-empty, else
/// `/`.
pub fn compute_home_dir(home_env: Option<&str>) -> (r: String)
    ensures
        r@ == match set_value(opt_text(home_env)) {
            Some(h) => h,
            None => "/"@,
        },
{
    match nonempty(home_env) {
        Some(value) => owned(value),
        None => owned("/"),
    }
}

/// Returns the user's writable config directory:
/// `$XDG_CONFIG_HOME/pirostats` when that is set and non-empty, else
/// `<home>/.config/pirostats`.
pub fn compute_xdg_dir(xdg_config_home: Option<&str>, home_env: Option<&str>) -> (r: String)
    ensures
        r@ == path_join(
            match set_value(opt_text(xdg_config_home)) {
                Some(x) => x,
                None => path_join(
                    match set_value(opt_text(home_env)) {
                        Some(h) => h,
                        None => "/"@,
                    },
                    ".config"@,
                ),
            },
            "pirostats"@,
        ),
{
    let base = match nonempty(xdg_config_home) {
        Some(value) => owned(value),
        None => {
            let home = compute_home_dir(home_env);
            join_path(home.as_str(), ".config")
        },
    };
    join_path(base.as_str(), "pirostats")
}

/// Returns the shipped default `config.toml` under a code root.
pub fn shipped_config(code_root: &str) -> (r: String)
    ensures
        r@ == path_join(path_join(code_root@, "config"@), "config.toml"@),
{
    let dir = join_path(code_root, "config");
    join_path(dir.as_str(), "config.toml")
}

/// Returns the shipped `machines.toml` under a code root.
pub fn shipped_machines(code_root: &str) -> (r: String)
    ensures
        r@ == path_join(path_join(code_root@, "config"@), "machines.toml"@),
{
    let dir = join_path(code_root, "config");
    join_path(dir.as_str(), "machines.toml")
}

/// Returns the path to a language TOML under a code root's `lang/` tree.
pub fn shipped_language(code_root: &str, language: &str) -> (r: String)
    ensures
        r@ == path_join(path_join(code_root@, "lang"@), language@ + ".toml"@),
{
    let dir = join_path(code_root, "lang");
    let mut file = owned(language);
    push_str(&mut file, ".toml");
    join_path(dir.as_str(), file.as_str())
}

/// What `Path::parent` returns for a path.
pub uninterp spec fn path_parent(path: Seq<char>) -> Option<Seq<char>>;

/// `Path::parent`, as text.
///
/// Trusted: std's `Path::parent` returns the path without its final
/// component, or `None` when the path ends in a root or is empty. A parent
/// of a text path is a prefix of it at a separator, so it is valid text and
/// converts without loss. The result is a function of the path alone; the
/// contract names it and states what std's documentation shows: nothing for
/// the empty path and for the root, the empty path for a single relative
/// component.
#[verifier::external_body]
fn parent_of(path: &str) -> (r: Option<String>)
    ensures
        match r {
            Some(p) => path_parent(path@) == Some(p@),
            None => path_parent(path@) is None,
        },
        path@.len() == 0 ==> r is None,
        path@ == seq!['/'] ==> r is None,
        (path@.len() > 0 && forall|i: int| 0 <= i < path@.len() ==> path@[i] != '/') ==> (r is Some && r->0@.len() == 0),
{
    match std::path::Path::new(path).parent() {
        Some(p) => Some(p.to_string_lossy().into_owned()),
        None => None,
    }
}

/// A path's parent, or `.` when it has none or the parent is empty.
pub open spec fn parent_or_dot_of(parent: Option<Seq<char>>) -> Seq<char> {
    match parent {
        Some(p) => if p.len() > 0 {
            p
        } else {
            "."@
        },
        None => "."@,
    }
}

/// Picks the parent directory to use from `Path::parent`'s answer (see
/// [`parent_or_dot_of`]).
pub fn dot_when_missing(parent: Option<String>) -> (r: String)
    ensures
        r@ == parent_or_dot_of(match parent {
            Some(p) => Some(p@),
            None => None,
        }),
{
    match parent {
        Some(p) => if p.as_str().unicode_len() > 0 {
            p
        } else {
            owned(".")
        },
        None => owned("."),
    }
}

/// Returns the parent directory of `path`, or `.` when `path` has none
/// (a bare file name has the current directory as its parent).
pub fn parent_or_dot(path: &str) -> (r: String)
    ensures
        r@ == parent_or_dot_of(path_parent(path@)),
{
    dot_when_missing(parent_of(path))
}

} // verus!
