//! Item registry rules: separators, unknown tokens, and surface placement.

use vstd::prelude::*;

use crate::domain::form::Surface;
use crate::domain::item::{lemma_describes_unique, ItemToken};
use crate::text::{insert_sorted, owned, str_eq, strictly_sorted, views};

verus! {

/// Whether a section entry is an explicit separator rather than an item.
pub open spec fn separator_token(s: Seq<char>) -> bool {
    s == "separator_small"@ || s == "separator_big"@
}

/// Whether some item token describes `s`.
pub open spec fn known_item(s: Seq<char>) -> bool {
    exists|t: ItemToken| t.describes(s)
}

/// Whether a section entry is neither a separator nor a known item.
pub open spec fn unknown_entry(s: Seq<char>) -> bool {
    !separator_token(s) && !known_item(s)
}

/// Whether a known item may render on neither panel orientation.
pub open spec fn panel_misplaced(s: Seq<char>) -> bool {
    exists|t: ItemToken|
        t.describes(s) && !t.admits(Surface::PanelHorizontal) && !t.admits(Surface::PanelVertical)
}

/// Whether a known item may not render in the tooltip.
pub open spec fn tooltip_misplaced(s: Seq<char>) -> bool {
    exists|t: ItemToken| t.describes(s) && !t.admits(Surface::Tooltip)
}

/// The texts of `items` that satisfy `p`.
pub open spec fn selected(items: Seq<&str>, p: spec_fn(Seq<char>) -> bool) -> Set<Seq<char>> {
    Set::new(|x: Seq<char>| exists|i: int| 0 <= i < items.len() && items[i]@ == x && p(x))
}

/// Whether `s` is one of the explicit separator entries.
pub fn is_separator(s: &str) -> (r: bool)
    ensures
        r == separator_token(s@),
{
    str_eq(s, "separator_small") || str_eq(s, "separator_big")
}

/// The entries of `items` that are neither separators nor known items,
/// sorted and without duplicates.
pub fn unknown_item_names(items: &[&str]) -> (r: Vec<String>)
    ensures
        strictly_sorted(views(r@)),
        views(r@).to_set() == selected(items@, |x: Seq<char>| unknown_entry(x)),
{
    let mut out: Vec<String> = Vec::new();
    let mut i: usize = 0;
    while i < items.len()
        invariant
            i <= items@.len(),
            strictly_sorted(views(out@)),
            views(out@).to_set() == selected(items@.subrange(0, i as int), |x: Seq<char>| unknown_entry(x)),
        decreases items@.len() - i,
    {
        let item = items[i];
        let ghost before = views(out@).to_set();
        let bad = !is_separator(item) && ItemToken::parse(item).is_err();
        if bad {
            insert_sorted(&mut out, owned(item));
        }
        proof {
            let p = |x: Seq<char>| unknown_entry(x);
            let next = selected(items@.subrange(0, i + 1), p);
            let prev = selected(items@.subrange(0, i as int), p);
            assert(bad == unknown_entry(item@));
            assert forall|x: Seq<char>| #[trigger] next.contains(x) <==> (prev.contains(x) || (x == item@ && bad)) by {
                if next.contains(x) {
                    let k = choose|k: int| 0 <= k < i + 1 && #[trigger] items@.subrange(0, i + 1)[k]@ == x && p(x);
                    if k < i {
                        assert(items@.subrange(0, i as int)[k] == items@.subrange(0, i + 1)[k]);
                    }
                }
                if prev.contains(x) {
                    let k = choose|k: int| 0 <= k < i && #[trigger] items@.subrange(0, i as int)[k]@ == x && p(x);
                    assert(items@.subrange(0, i + 1)[k] == items@.subrange(0, i as int)[k]);
                }
                if x == item@ && bad {
                    assert(items@.subrange(0, i + 1)[i as int] == item);
                }
            }
            if bad {
                assert(views(out@).to_set() =~= next);
            } else {
                assert(views(out@).to_set() =~= next);
            }
        }
        i = i + 1;
    }
    assert(items@.subrange(0, items@.len() as int) =~= items@);
    out
}

/// Sorts the known items of one surface whose placement excludes it.
fn misplaced_on(items: &[&str], tooltip: bool) -> (r: Vec<String>)
    ensures
        strictly_sorted(views(r@)),
        tooltip ==> views(r@).to_set() == selected(items@, |x: Seq<char>| tooltip_misplaced(x)),
        !tooltip ==> views(r@).to_set() == selected(items@, |x: Seq<char>| panel_misplaced(x)),
{
    let ghost p = if tooltip {
        |x: Seq<char>| tooltip_misplaced(x)
    } else {
        |x: Seq<char>| panel_misplaced(x)
    };
    let mut out: Vec<String> = Vec::new();
    let mut i: usize = 0;
    while i < items.len()
        invariant
            i <= items@.len(),
            strictly_sorted(views(out@)),
            views(out@).to_set() == selected(items@.subrange(0, i as int), p),
            p == (if tooltip {
                |x: Seq<char>| tooltip_misplaced(x)
            } else {
                |x: Seq<char>| panel_misplaced(x)
            }),
        decreases items@.len() - i,
    {
        let item = items[i];
        let bad = match ItemToken::parse(item) {
            Ok(t) => {
                let placement = t.placement();
                let b = if tooltip {
                    !placement.contains(Surface::Tooltip)
                } else {
                    !placement.contains(Surface::PanelHorizontal) && !placement.contains(
                        Surface::PanelVertical,
                    )
                };
                proof {
                    assert forall|u: ItemToken| u.describes(item@) implies u == t by {
                        lemma_describes_unique(u, t, item@);
                    }
                }
                b
            },
            Err(_) => false,
        };
        if bad {
            insert_sorted(&mut out, owned(item));
        }
        proof {
            let next = selected(items@.subrange(0, i + 1), p);
            let prev = selected(items@.subrange(0, i as int), p);
            assert(bad == p(item@));
            assert forall|x: Seq<char>| #[trigger] next.contains(x) <==> (prev.contains(x) || (x == item@ && bad)) by {
                if next.contains(x) {
                    let k = choose|k: int| 0 <= k < i + 1 && #[trigger] items@.subrange(0, i + 1)[k]@ == x && p(x);
                    if k < i {
                        assert(items@.subrange(0, i as int)[k] == items@.subrange(0, i + 1)[k]);
                    }
                }
                if prev.contains(x) {
                    let k = choose|k: int| 0 <= k < i && #[trigger] items@.subrange(0, i as int)[k]@ == x && p(x);
                    assert(items@.subrange(0, i + 1)[k] == items@.subrange(0, i as int)[k]);
                }
                if x == item@ && bad {
                    assert(items@.subrange(0, i + 1)[i as int] == item);
                }
            }
            assert(views(out@).to_set() =~= next);
        }
        i = i + 1;
    }
    assert(items@.subrange(0, items@.len() as int) =~= items@);
    out
}

/// Splits out the items placed on a surface that does not admit them:
/// `(tooltip-only items in the panel, panel-only items in the tooltip)`,
/// each sorted and without duplicates. Unknown tokens are not reported.
pub fn misplaced_items(panel: &[&str], tooltip: &[&str]) -> (r: (Vec<String>, Vec<String>))
    ensures
        strictly_sorted(views(r.0@)),
        strictly_sorted(views(r.1@)),
        views(r.0@).to_set() == selected(panel@, |x: Seq<char>| panel_misplaced(x)),
        views(r.1@).to_set() == selected(tooltip@, |x: Seq<char>| tooltip_misplaced(x)),
{
    (misplaced_on(panel, false), misplaced_on(tooltip, true))
}

} // verus!
