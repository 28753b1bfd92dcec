//! Plain-text view of the rendered HTML, for one-shot diagnostics.

use vstd::prelude::*;

use crate::text::{
    copy_range, find_sub, find_sub_chars, lemma_find_sub, push_all, string_from_chars, to_chars,
};

verus! {

broadcast use vstd::string::group_string_axioms;

/// `s` with every non-overlapping occurrence of `pat` (left to right)
/// replaced by `rep`, as `str::replace` does.
pub open spec fn replaced(s: Seq<char>, pat: Seq<char>, rep: Seq<char>) -> Seq<char>
    decreases s.len(),
{
    if pat.len() == 0 {
        s
    } else {
        match find_sub(s, pat, 0) {
            Some(i) => if 0 <= i && i + pat.len() <= s.len() {
                s.take(i) + rep + replaced(s.skip(i + pat.len()), pat, rep)
            } else {
                s
            },
            None => s,
        }
    }
}

/// `s` without its `<style>...</style>` blocks, removed from the first
/// one on, repeatedly; an unclosed block stays.
pub open spec fn without_styles(s: Seq<char>) -> Seq<char>
    decreases s.len(),
{
    match find_sub(s, "<style>"@, 0) {
        Some(a) => match find_sub(s.skip(a), "</style>"@, 0) {
            Some(e) => if 0 <= a && 0 <= e && a + e + "</style>"@.len() <= s.len() && "</style>"@.len() > 0 {
                without_styles(s.take(a) + s.skip(a + e + "</style>"@.len()))
            } else {
                s
            },
            None => s,
        },
        None => s,
    }
}

/// The characters outside `<...>` tags.
pub open spec fn outside_tags(s: Seq<char>, in_tag: bool) -> Seq<char>
    decreases s.len(),
{
    if s.len() == 0 {
        s
    } else if s[0] == '<' {
        outside_tags(s.drop_first(), true)
    } else if s[0] == '>' {
        outside_tags(s.drop_first(), false)
    } else if in_tag {
        outside_tags(s.drop_first(), true)
    } else {
        seq![s[0]] + outside_tags(s.drop_first(), false)
    }
}

/// Rendered HTML as plain text: style blocks removed, a line break after
/// each `</div>` and for each `<br>` form, tags dropped, and `&nbsp;`
/// written as a space.
pub open spec fn plain_text(html: Seq<char>) -> Seq<char> {
    let a = without_styles(html);
    let b = replaced(a, "</div>"@, "</div>\n"@);
    let c = replaced(b, "<br>"@, "\n"@);
    let d = replaced(c, "<br/>"@, "\n"@);
    let e = replaced(d, "<br />"@, "\n"@);
    replaced(outside_tags(e, false), "&nbsp;"@, " "@)
}

/// Replaces every occurrence of `pat` in `v` with `rep` (see [`replaced`]).
fn replace_chars(v: &[char], pat: &str, rep: &str) -> (r: Vec<char>)
    ensures
        r@ == replaced(v@, pat@, rep@),
{
    let p = to_chars(pat);
    let rc = to_chars(rep);
    if p.len() == 0 {
        let out = copy_range(v, 0, v.len());
        assert(out@ =~= v@);
        return out;
    }
    let mut out: Vec<char> = Vec::new();
    let mut i: usize = 0;
    assert(v@.skip(0) =~= v@);
    while i < v.len()
        invariant
            i <= v@.len(),
            p@ == pat@,
            rc@ == rep@,
            p@.len() > 0,
            out@ + replaced(v@.skip(i as int), pat@, rep@) == replaced(v@, pat@, rep@),
        decreases v@.len() - i,
    {
        let ghost s = v@.skip(i as int);
        let rest = copy_range(v, i, v.len());
        assert(rest@ =~= s);
        match find_sub_chars(rest.as_slice(), p.as_slice(), 0) {
            Some(j) => {
                proof {
                    lemma_find_sub(s, pat@, 0);
                }
                let ghost before = out@;
                let head = copy_range(rest.as_slice(), 0, j);
                push_all(&mut out, head.as_slice());
                push_all(&mut out, rc.as_slice());
                assert(head@ =~= s.take(j as int));
                assert(s.skip(j + pat@.len()) =~= v@.skip(i + j + p@.len()));
                assert(out@ =~= before + s.take(j as int) + rep@);
                i = i + j + p.len();
            },
            None => {
                push_all(&mut out, rest.as_slice());
                assert(v@.skip(v@.len() as int) =~= Seq::<char>::empty());
                i = v.len();
            },
        }
    }
    assert(out@ + replaced(v@.skip(i as int), pat@, rep@) =~= out@);
    out
}

/// Removes style blocks (see [`without_styles`]).
fn remove_styles(v: Vec<char>) -> (r: Vec<char>)
    ensures
        r@ == without_styles(v@),
    decreases v@.len(),
{
    let open = to_chars("<style>");
    let close = to_chars("</style>");
    proof {
        reveal_strlit("</style>");
    }
    let a = match find_sub_chars(v.as_slice(), open.as_slice(), 0) {
        Some(a) => a,
        None => return v,
    };
    proof {
        lemma_find_sub(v@, "<style>"@, 0);
    }
    let rest = copy_range(v.as_slice(), a, v.len());
    assert(rest@ =~= v@.skip(a as int));
    let e = match find_sub_chars(rest.as_slice(), close.as_slice(), 0) {
        Some(e) => e,
        None => return v,
    };
    proof {
        lemma_find_sub(rest@, "</style>"@, 0);
    }
    let mut next = copy_range(v.as_slice(), 0, a);
    let tail = copy_range(v.as_slice(), a + e + 8, v.len());
    push_all(&mut next, tail.as_slice());
    assert(next@ =~= v@.take(a as int) + v@.skip(a + e + "</style>"@.len()));
    remove_styles(next)
}

/// Drops tags (see [`outside_tags`]).
fn drop_tags(v: &[char]) -> (r: Vec<char>)
    ensures
        r@ == outside_tags(v@, false),
{
    let mut out: Vec<char> = Vec::new();
    let mut in_tag = false;
    let mut i: usize = 0;
    assert(v@.skip(0) =~= v@);
    while i < v.len()
        invariant
            i <= v@.len(),
            out@ + outside_tags(v@.skip(i as int), in_tag) == outside_tags(v@, false),
        decreases v@.len() - i,
    {
        let ghost s = v@.skip(i as int);
        assert(s[0] == v@[i as int]);
        assert(s.drop_first() =~= v@.skip(i + 1));
        let c = v[i];
        if c == '<' {
            in_tag = true;
        } else if c == '>' {
            in_tag = false;
        } else if !in_tag {
            out.push(c);
        }
        i = i + 1;
    }
    assert(out@ + outside_tags(v@.skip(i as int), in_tag) =~= out@);
    out
}

/// Removes generated tags while retaining row and non-breaking-space
/// layout (see [`plain_text`]).
pub fn strip_html(html: &str) -> (r: String)
    ensures
        r@ == plain_text(html@),
{
    let v = to_chars(html);
    let a = remove_styles(v);
    let b = replace_chars(a.as_slice(), "</div>", "</div>\n");
    let c = replace_chars(b.as_slice(), "<br>", "\n");
    let d = replace_chars(c.as_slice(), "<br/>", "\n");
    let e = replace_chars(d.as_slice(), "<br />", "\n");
    let f = drop_tags(e.as_slice());
    let g = replace_chars(f.as_slice(), "&nbsp;", " ");
    string_from_chars(g.as_slice())
}

} // verus!
