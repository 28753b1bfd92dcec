//! TOML documents as values, and the merges that resolve a configuration:
//! a machine profile over the user's file, an orientation block over the
//! panel block.

use vstd::prelude::*;

use crate::config::geometry::MachineRule;
use crate::config::{
    drop_misplaced_items, drop_unknown_items, narrowed, panel_misplaced, tooltip_misplaced, unknown_entry, ConfigError,
    Section, Surface,
};
use crate::text::{copy_range, owned, str_eq, string_from_chars, to_chars, views};

verus! {

broadcast use vstd::string::group_string_axioms;

#[verifier::external_type_specification]
#[verifier::external_body]
pub struct ExTomlValue(toml::Value);

/// A TOML value. Floats and datetimes keep the text the parser prints for
/// them; tables keep their entries as key-value pairs (the order of the
/// entries carries no meaning, keys are unique).
#[derive(Debug, PartialEq, Eq)]
pub enum TomlValue {
    /// A string.
    Str(String),
    /// An integer.
    Int(i64),
    /// A float, as printed.
    Float(String),
    /// A boolean.
    Bool(bool),
    /// A datetime, as printed.
    Datetime(String),
    /// An array.
    Array(Vec<TomlValue>),
    /// A table.
    Table(Vec<(String, TomlValue)>),
}

/// A TOML value as values.
pub enum TomlView {
    Str(Seq<char>),
    Int(int),
    Float(Seq<char>),
    Bool(bool),
    Datetime(Seq<char>),
    Array(Seq<TomlView>),
    Table(Seq<(Seq<char>, TomlView)>),
}

/// The value of a TOML value.
pub open spec fn tv(v: TomlValue) -> TomlView
    decreases v,
{
    match v {
        TomlValue::Str(s) => TomlView::Str(s@),
        TomlValue::Int(i) => TomlView::Int(i as int),
        TomlValue::Float(s) => TomlView::Float(s@),
        TomlValue::Bool(b) => TomlView::Bool(b),
        TomlValue::Datetime(s) => TomlView::Datetime(s@),
        TomlValue::Array(a) => TomlView::Array(
            Seq::new(
                a@.len(),
                |i: int|
                    if 0 <= i < a@.len() {
                        proof {
                            assert(decreases_to!(v => a));
                            assert(decreases_to!(a => a@));
                            assert(decreases_to!(a@ => a@[i]));
                        }
                        tv(a@[i])
                    } else {
                        TomlView::Bool(false)
                    },
            ),
        ),
        TomlValue::Table(t) => TomlView::Table(
            Seq::new(
                t@.len(),
                |i: int|
                    if 0 <= i < t@.len() {
                        proof {
                            assert(decreases_to!(v => t));
                            assert(decreases_to!(t => t@));
                            assert(decreases_to!(t@ => t@[i]));
                            assert(decreases_to!(t@[i] => t@[i].1));
                        }
                        (t@[i].0@, tv(t@[i].1))
                    } else {
                        (Seq::empty(), TomlView::Bool(false))
                    },
            ),
        ),
    }
}

/// The entries of a table as values.
pub open spec fn entries_view(t: Seq<(String, TomlValue)>) -> Seq<(Seq<char>, TomlView)> {
    Seq::new(t.len(), |i: int| (t[i].0@, tv(t[i].1)))
}

/// The document the TOML parser reads from `text` (a table), or `None`
/// when the text is not TOML.
pub uninterp spec fn toml_doc(text: Seq<char>) -> Option<TomlView>;

/// Converts a parsed TOML value into a [`TomlValue`], variant for variant;
/// floats and datetimes are printed.
#[verifier::external_body]
fn from_toml(v: toml::Value) -> TomlValue {
    match v {
        toml::Value::String(s) => TomlValue::Str(s),
        toml::Value::Integer(i) => TomlValue::Int(i),
        toml::Value::Float(f) => TomlValue::Float(f.to_string()),
        toml::Value::Boolean(b) => TomlValue::Bool(b),
        toml::Value::Datetime(d) => TomlValue::Datetime(d.to_string()),
        toml::Value::Array(a) => TomlValue::Array(a.into_iter().map(from_toml).collect()),
        toml::Value::Table(t) => TomlValue::Table(t.into_iter().map(|(k, v)| (k, from_toml(v))).collect()),
    }
}

/// Parses a TOML document with `toml::Table::from_str` (`str::parse`): the
/// document read from `text`, or the parser's message when it refuses it.
/// What the message says is not stated.
#[verifier::external_body]
pub fn parse_toml(text: &str) -> (r: Result<TomlValue, String>)
    ensures
        match r {
            Ok(t) => toml_doc(text@) == Some(tv(t)),
            Err(_) => toml_doc(text@) is None,
        },
{
    match text.parse::<toml::Table>() {
        Ok(table) => Ok(TomlValue::Table(table.into_iter().map(|(k, v)| (k, from_toml(v))).collect())),
        Err(e) => Err(e.to_string()),
    }
}

/// Table entries as values.
pub type Entries = Seq<(Seq<char>, TomlView)>;

/// The index of the first entry keyed `k` at or after `i`.
pub open spec fn key_from(t: Entries, k: Seq<char>, i: int) -> Option<int>
    decreases t.len() - i,
{
    if i < 0 || i >= t.len() {
        None
    } else if t[i].0 == k {
        Some(i)
    } else {
        key_from(t, k, i + 1)
    }
}

/// The index of the entry keyed `k`.
pub open spec fn key_index(t: Entries, k: Seq<char>) -> Option<int> {
    key_from(t, k, 0)
}

/// The value under `k`.
pub open spec fn lookup(t: Entries, k: Seq<char>) -> Option<TomlView> {
    match key_index(t, k) {
        Some(i) => Some(t[i].1),
        None => None,
    }
}

/// `t` with `k` set to `v`: the entry replaced where there is one, else
/// appended.
pub open spec fn put(t: Entries, k: Seq<char>, v: TomlView) -> Entries {
    match key_index(t, k) {
        Some(i) => t.update(i, (k, v)),
        None => t.push((k, v)),
    }
}

/// The key a `<key>_add` entry extends.
pub open spec fn add_target(k: Seq<char>) -> Option<Seq<char>> {
    if k.len() > 4 && k.subrange(k.len() - 4, k.len() as int) == "_add"@ {
        Some(k.subrange(0, k.len() - 4))
    } else {
        None
    }
}

/// One entry of an overriding table merged into `base`: an array under
/// `<key>_add` is appended to the array under `<key>` (to nothing when
/// there is none); a table over a table is merged into it; anything else
/// replaces what `base` holds under its key.
pub open spec fn merge_entry(base: Entries, e: (Seq<char>, TomlView)) -> Entries
    decreases e,
{
    match (add_target(e.0), e.1) {
        (Some(target), TomlView::Array(add)) => put(
            base,
            target,
            TomlView::Array(
                match lookup(base, target) {
                    Some(TomlView::Array(a)) => a,
                    _ => Seq::empty(),
                } + add,
            ),
        ),
        _ => match (lookup(base, e.0), e.1) {
            (Some(TomlView::Table(b)), TomlView::Table(o)) => {
                proof {
                    assert(decreases_to!(e => e.1));
                }
                put(base, e.0, TomlView::Table(merge_tables(b, o)))
            },
            _ => put(base, e.0, e.1),
        },
    }
}

/// `over` merged into `base`, entry by entry in order (see
/// [`merge_entry`]).
pub open spec fn merge_tables(base: Entries, over: Entries) -> Entries
    decreases over,
{
    if over.len() == 0 {
        base
    } else {
        proof {
            assert(decreases_to!(over => over[over.len() - 1]));
        }
        merge_entry(merge_tables(base, over.drop_last()), over.last())
    }
}

/// The values of an array as values.
pub open spec fn values_view(a: Seq<TomlValue>) -> Seq<TomlView> {
    Seq::new(a.len(), |i: int| tv(a[i]))
}

/// A table's value is its entries' values.
pub proof fn lemma_tv_table(t: Vec<(String, TomlValue)>)
    ensures
        tv(TomlValue::Table(t)) == TomlView::Table(entries_view(t@)),
{
    let v = TomlValue::Table(t);
    assert(tv(v)->Table_0 =~= entries_view(t@));
}

/// An array's value is its elements' values.
pub proof fn lemma_tv_array(a: Vec<TomlValue>)
    ensures
        tv(TomlValue::Array(a)) == TomlView::Array(values_view(a@)),
{
    let v = TomlValue::Array(a);
    assert(tv(v)->Array_0 =~= values_view(a@));
}

proof fn lemma_values_push(s: Seq<TomlValue>, x: TomlValue)
    ensures
        values_view(s.push(x)) == values_view(s).push(tv(x)),
{
    assert(values_view(s.push(x)) =~= values_view(s).push(tv(x))) by {
        assert forall|j: int| 0 <= j < s.len() implies s.push(x)[j] == s[j] by {}
    }
}

proof fn lemma_entries_push(s: Seq<(String, TomlValue)>, x: (String, TomlValue))
    ensures
        entries_view(s.push(x)) == entries_view(s).push((x.0@, tv(x.1))),
{
    assert(entries_view(s.push(x)) =~= entries_view(s).push((x.0@, tv(x.1)))) by {
        assert forall|j: int| 0 <= j < s.len() implies s.push(x)[j] == s[j] by {}
    }
}

proof fn lemma_entries_update(s: Seq<(String, TomlValue)>, i: int, x: (String, TomlValue))
    requires
        0 <= i < s.len(),
    ensures
        entries_view(s.update(i, x)) == entries_view(s).update(i, (x.0@, tv(x.1))),
{
    assert(entries_view(s.update(i, x)) =~= entries_view(s).update(i, (x.0@, tv(x.1))));
}

/// A copy of a value.
pub fn copy_value(v: &TomlValue) -> (r: TomlValue)
    ensures
        tv(r) == tv(*v),
    decreases v,
{
    match v {
        TomlValue::Str(s) => TomlValue::Str(owned(s.as_str())),
        TomlValue::Int(i) => TomlValue::Int(*i),
        TomlValue::Float(s) => TomlValue::Float(owned(s.as_str())),
        TomlValue::Bool(b) => TomlValue::Bool(*b),
        TomlValue::Datetime(s) => TomlValue::Datetime(owned(s.as_str())),
        TomlValue::Array(a) => {
            let mut out: Vec<TomlValue> = Vec::new();
            let mut k: usize = 0;
            while k < a.len()
                invariant
                    *v == TomlValue::Array(*a),
                    k <= a@.len(),
                    values_view(out@) == values_view(a@).take(k as int),
                decreases a@.len() - k,
            {
                proof {
                    assert(*a == (*v)->Array_0);
                    assert(decreases_to!(*v => (*v)->Array_0));
                    assert(decreases_to!(*a => a@));
                    assert(decreases_to!(a@ => a@[k as int]));
                }
                let c = copy_value(&a[k]);
                let ghost before = out@;
                out.push(c);
                proof {
                    lemma_values_push(before, c);
                    assert(values_view(out@) =~= values_view(a@).take(k + 1));
                }
                k = k + 1;
            }
            proof {
                assert(values_view(a@).take(a@.len() as int) =~= values_view(a@));
                lemma_tv_array(out);
                lemma_tv_array(*a);
            }
            TomlValue::Array(out)
        },
        TomlValue::Table(t) => {
            proof {
                assert(*t == (*v)->Table_0);
                assert(decreases_to!(*v => (*v)->Table_0));
            }
            let out = copy_entries(t);
            proof {
                lemma_tv_table(out);
                lemma_tv_table(*t);
            }
            TomlValue::Table(out)
        },
    }
}

/// A copy of table entries.
pub fn copy_entries(t: &Vec<(String, TomlValue)>) -> (r: Vec<(String, TomlValue)>)
    ensures
        entries_view(r@) == entries_view(t@),
    decreases t@,
{
    let mut out: Vec<(String, TomlValue)> = Vec::new();
    let mut k: usize = 0;
    while k < t.len()
        invariant
            k <= t@.len(),
            entries_view(out@) == entries_view(t@).take(k as int),
        decreases t@.len() - k,
    {
        proof {
            assert(decreases_to!(t@ => t@[k as int]));
            assert(decreases_to!(t@[k as int] => t@[k as int].1));
        }
        let c = copy_value(&t[k].1);
        let key = owned(t[k].0.as_str());
        let ghost before = out@;
        let ghost pair = (key, c);
        out.push((key, c));
        proof {
            lemma_entries_push(before, pair);
            assert(entries_view(out@) =~= entries_view(t@).take(k + 1));
        }
        k = k + 1;
    }
    assert(entries_view(t@).take(t@.len() as int) =~= entries_view(t@));
    out
}

proof fn lemma_key_from(t: Entries, k: Seq<char>, i: int)
    requires
        0 <= i <= t.len(),
        forall|j: int| 0 <= j < i ==> t[j].0 != k,
    ensures
        key_from(t, k, 0) == key_from(t, k, i),
    decreases i,
{
    if i > 0 {
        lemma_key_from(t, k, i - 1);
    }
}

proof fn lemma_key_found(t: Entries, k: Seq<char>, i: int)
    requires
        0 <= i,
        key_from(t, k, i) matches Some(j),
    ensures
        key_from(t, k, i) matches Some(j) && i <= j < t.len() && t[j].0 == k,
    decreases t.len() - i,
{
    if i < t.len() && t[i].0 != k {
        lemma_key_found(t, k, i + 1);
    }
}

/// The index of the entry keyed `k` (see [`key_index`]).
pub fn find_key(t: &Vec<(String, TomlValue)>, k: &str) -> (r: Option<usize>)
    ensures
        match r {
            Some(i) => key_index(entries_view(t@), k@) == Some(i as int) && i < t@.len(),
            None => key_index(entries_view(t@), k@) is None,
        },
{
    let ghost ev = entries_view(t@);
    let mut i: usize = 0;
    while i < t.len()
        invariant
            i <= t@.len(),
            ev == entries_view(t@),
            forall|j: int| 0 <= j < i ==> ev[j].0 != k@,
        decreases t@.len() - i,
    {
        if str_eq(t[i].0.as_str(), k) {
            proof {
                lemma_key_from(ev, k@, i as int);
            }
            return Some(i);
        }
        i = i + 1;
    }
    proof {
        lemma_key_from(ev, k@, i as int);
    }
    None
}

/// `t` with `k` set to `v` (see [`put`]).
fn put_entry(t: &mut Vec<(String, TomlValue)>, k: String, v: TomlValue)
    ensures
        entries_view(final(t)@) == put(entries_view(old(t)@), k@, tv(v)),
{
    let ghost kv = k@;
    let ghost vv = tv(v);
    match find_key(t, k.as_str()) {
        Some(i) => {
            t.set(i, (k, v));
            assert(entries_view(t@) =~= entries_view(old(t)@).update(i as int, (kv, vv)));
        },
        None => {
            t.push((k, v));
            assert(entries_view(t@) =~= entries_view(old(t)@).push((kv, vv)));
        },
    }
}

/// The key an entry named `key` extends, when its name ends in `_add`.
fn add_target_of(key: &str) -> (r: Option<String>)
    ensures
        match r {
            Some(t) => add_target(key@) == Some(t@),
            None => add_target(key@) is None,
        },
{
    let c = to_chars(key);
    let n = c.len();
    proof {
        reveal_strlit("_add");
    }
    if n > 4 && c[n - 4] == '_' && c[n - 3] == 'a' && c[n - 2] == 'd' && c[n - 1] == 'd' {
        assert(c@.subrange(n - 4, n as int) =~= "_add"@);
        let head = copy_range(c.as_slice(), 0, n - 4);
        Some(string_from_chars(head.as_slice()))
    } else {
        proof {
            if n > 4 && c@.subrange(n - 4, n as int) == "_add"@ {
                assert(c@.subrange(n - 4, n as int)[0] == '_');
                assert(c@.subrange(n - 4, n as int)[1] == 'a');
                assert(c@.subrange(n - 4, n as int)[2] == 'd');
                assert(c@.subrange(n - 4, n as int)[3] == 'd');
            }
        }
        None
    }
}

/// Appends copies of `add` to `out`.
fn append_copies(out: &mut Vec<TomlValue>, add: &Vec<TomlValue>)
    ensures
        values_view(final(out)@) == values_view(old(out)@) + values_view(add@),
{
    let mut k: usize = 0;
    while k < add.len()
        invariant
            k <= add@.len(),
            values_view(out@) == values_view(old(out)@) + values_view(add@).take(k as int),
        decreases add@.len() - k,
    {
        let c = copy_value(&add[k]);
        let ghost before = out@;
        out.push(c);
        proof {
            lemma_values_push(before, c);
            assert(values_view(out@) =~= values_view(old(out)@) + values_view(add@).take(k + 1));
        }
        k = k + 1;
    }
    assert(values_view(add@).take(add@.len() as int) =~= values_view(add@));
}

/// One overriding entry merged into `base` (see [`merge_entry`]).
pub fn merge_entry_into(base: Vec<(String, TomlValue)>, e: &(String, TomlValue)) -> (r: Vec<(String, TomlValue)>)
    ensures
        entries_view(r@) == merge_entry(entries_view(base@), (e.0@, tv(e.1))),
    decreases e,
{
    let mut base = base;
    let ghost b0 = entries_view(base@);
    let ghost ev = (e.0@, tv(e.1));
    if let TomlValue::Array(add) = &e.1 {
        if let Some(target) = add_target_of(e.0.as_str()) {
            proof {
                lemma_tv_array(*add);
            }
            let mut joined: Vec<TomlValue> = Vec::new();
            let found = find_key(&base, target.as_str());
            if let Some(i) = found {
                if let TomlValue::Array(a) = &base[i].1 {
                    proof {
                        lemma_tv_array(*a);
                        assert(b0[i as int].1 == tv(base@[i as int].1));
                    }
                    append_copies(&mut joined, a);
                }
            }
            append_copies(&mut joined, add);
            proof {
                lemma_tv_array(joined);
                let prior = match lookup(b0, target@) {
                    Some(TomlView::Array(a)) => a,
                    _ => Seq::empty(),
                };
                assert(values_view(joined@) =~= prior + values_view(add@));
            }
            put_entry(&mut base, target, TomlValue::Array(joined));
            return base;
        }
    }
    let found = find_key(&base, e.0.as_str());
    if let TomlValue::Table(o) = &e.1 {
        if let Some(i) = found {
            if matches!(base[i].1, TomlValue::Table(_)) {
                let ghost old_base = base@;
                let (key, old_value) = base.remove(i);
                proof {
                    assert(b0[i as int] == (key@, tv(old_value)));
                }
                if let TomlValue::Table(inner) = old_value {
                    proof {
                        lemma_tv_table(inner);
                        lemma_tv_table(*o);
                        assert(decreases_to!(*e => e.1));
                        assert(decreases_to!(e.1 => *o));
                    }
                    let merged = merge_tables_into(inner, o);
                    proof {
                        lemma_tv_table(merged);
                    }
                    let ghost before = base@;
                    let ghost entry = (key, TomlValue::Table(merged));
                    base.insert(i, (key, TomlValue::Table(merged)));
                    proof {
                        assert(base@ =~= old_base.update(i as int, entry));
                        lemma_entries_update(old_base, i as int, entry);
                        lemma_key_found(b0, e.0@, 0);
                        assert(key@ == e.0@);
                        assert(lookup(b0, e.0@) == Some(tv(old_value)));
                        assert(tv(e.1) == TomlView::Table(entries_view(o@)));
                        assert(add_target(e.0@) is None || !(tv(e.1) is Array));
                    }
                    return base;
                }
                return base;
            }
        }
    }
    let value = copy_value(&e.1);
    put_entry(&mut base, owned(e.0.as_str()), value);
    base
}

/// `over` merged into `base`, entry by entry (see [`merge_tables`]).
pub fn merge_tables_into(base: Vec<(String, TomlValue)>, over: &Vec<(String, TomlValue)>) -> (r: Vec<(String, TomlValue)>)
    ensures
        entries_view(r@) == merge_tables(entries_view(base@), entries_view(over@)),
    decreases over,
{
    let ghost b0 = entries_view(base@);
    let ghost ov = entries_view(over@);
    let mut acc = base;
    let mut k: usize = 0;
    while k < over.len()
        invariant
            k <= over@.len(),
            ov == entries_view(over@),
            entries_view(acc@) == merge_tables(b0, ov.take(k as int)),
        decreases over@.len() - k,
    {
        proof {
            assert(decreases_to!(*over => over@));
            assert(decreases_to!(over@ => over@[k as int]));
        }
        acc = merge_entry_into(acc, &over[k]);
        proof {
            assert(ov.take(k + 1).drop_last() =~= ov.take(k as int));
            assert(ov.take(k + 1).last() == ov[k as int]);
        }
        k = k + 1;
    }
    assert(ov.take(over@.len() as int) =~= ov);
    acc
}

// ── Reading a resolved document ───────────────────────────────────────────

/// The entries of a table (nothing for any other value).
pub open spec fn entries_of(v: TomlView) -> Entries {
    match v {
        TomlView::Table(t) => t,
        _ => Seq::empty(),
    }
}

/// The table under `k` (empty when there is none, or something else).
pub open spec fn sub_table(t: Entries, k: Seq<char>) -> Entries {
    match lookup(t, k) {
        Some(TomlView::Table(x)) => x,
        _ => Seq::empty(),
    }
}

/// The string under `k`, if it is one.
pub open spec fn str_at(t: Entries, k: Seq<char>) -> Option<Seq<char>> {
    match lookup(t, k) {
        Some(TomlView::Str(x)) => Some(x),
        _ => None,
    }
}

/// The strings of an array, in order (other elements are skipped).
pub open spec fn str_items(a: Seq<TomlView>) -> Seq<Seq<char>>
    decreases a.len(),
{
    if a.len() == 0 {
        Seq::empty()
    } else {
        let rest = str_items(a.drop_last());
        match a.last() {
            TomlView::Str(x) => rest.push(x),
            _ => rest,
        }
    }
}

/// The strings of the array under `k` (none when there is no array).
pub open spec fn str_list(t: Entries, k: Seq<char>) -> Seq<Seq<char>> {
    match lookup(t, k) {
        Some(TomlView::Array(a)) => str_items(a),
        _ => Seq::empty(),
    }
}

/// A surface as values: its sections (key, title, items) and the glyph
/// flag.
pub type SurfaceView = (Seq<(Seq<char>, Seq<char>, Seq<Seq<char>>)>, bool);

/// The value of a surface.
pub open spec fn surface_view(s: Surface) -> SurfaceView {
    (
        Seq::new(
            s.sections@.len(),
            |k: int| (s.sections@[k].key@, s.sections@[k].title@, views(s.sections@[k].items@)),
        ),
        s.glyphs,
    )
}

/// A surface block: one section per string of `order`, each with the title
/// and the item strings of the table under its key (empty when missing);
/// glyphs unless `glyphs` is `false`.
pub open spec fn surface_of(t: Entries) -> SurfaceView {
    let order = str_list(t, "order"@);
    (
        Seq::new(
            order.len(),
            |k: int|
                (
                    order[k],
                    match str_at(sub_table(t, order[k]), "title"@) {
                        Some(x) => x,
                        None => Seq::empty(),
                    },
                    str_list(sub_table(t, order[k]), "items"@),
                ),
        ),
        match lookup(t, "glyphs"@) {
            Some(TomlView::Bool(b)) => b,
            _ => true,
        },
    )
}

/// The value under `k` (see [`lookup`]).
pub fn get_value<'a>(t: &'a Vec<(String, TomlValue)>, k: &str) -> (r: Option<&'a TomlValue>)
    ensures
        match lookup(entries_view(t@), k@) {
            Some(v) => r matches Some(x) && tv(*x) == v,
            None => r is None,
        },
{
    match find_key(t, k) {
        Some(i) => Some(&t[i].1),
        None => None,
    }
}

/// The entries of the table under `k` (see [`sub_table`]).
pub fn sub_table_of(t: &Vec<(String, TomlValue)>, k: &str) -> (r: Vec<(String, TomlValue)>)
    ensures
        entries_view(r@) == sub_table(entries_view(t@), k@),
{
    match get_value(t, k) {
        Some(TomlValue::Table(x)) => {
            proof {
                lemma_tv_table(*x);
            }
            copy_entries(x)
        },
        _ => {
            assert(entries_view(Seq::<(String, TomlValue)>::empty()) =~= Seq::<(Seq<char>, TomlView)>::empty());
            Vec::new()
        },
    }
}

fn strings_of(a: &Vec<TomlValue>) -> (r: Vec<String>)
    ensures
        views(r@) == str_items(values_view(a@)),
{
    let ghost va = values_view(a@);
    let mut out: Vec<String> = Vec::new();
    let mut k: usize = 0;
    while k < a.len()
        invariant
            k <= a@.len(),
            va == values_view(a@),
            views(out@) == str_items(va.take(k as int)),
        decreases a@.len() - k,
    {
        proof {
            assert(va.take(k + 1).drop_last() =~= va.take(k as int));
            assert(va.take(k + 1).last() == tv(a@[k as int]));
        }
        match &a[k] {
            TomlValue::Str(x) => {
                let ghost before = out@;
                out.push(owned(x.as_str()));
                assert(views(out@) =~= views(before).push(x@));
            },
            _ => {},
        }
        k = k + 1;
    }
    assert(va.take(a@.len() as int) =~= va);
    out
}

fn string_list(t: &Vec<(String, TomlValue)>, k: &str) -> (r: Vec<String>)
    ensures
        views(r@) == str_list(entries_view(t@), k@),
{
    match get_value(t, k) {
        Some(TomlValue::Array(a)) => {
            proof {
                lemma_tv_array(*a);
            }
            strings_of(a)
        },
        _ => {
            assert(views(Seq::<String>::empty()) =~= Seq::<Seq<char>>::empty());
            Vec::new()
        },
    }
}

/// Reads a surface block (see [`surface_of`]).
pub fn surface_from(t: &Vec<(String, TomlValue)>) -> (r: Surface)
    ensures
        surface_view(r) == surface_of(entries_view(t@)),
{
    proof {
        reveal_strlit("order");
        reveal_strlit("title");
        reveal_strlit("items");
        reveal_strlit("glyphs");
    }
    let ghost tev = entries_view(t@);
    let order = string_list(t, "order");
    let ghost target = surface_of(tev);
    let mut sections: Vec<Section> = Vec::new();
    let mut k: usize = 0;
    while k < order.len()
        invariant
            k <= order@.len(),
            tev == entries_view(t@),
            target == surface_of(tev),
            views(order@) == str_list(tev, "order"@),
            sections@.len() == k,
            forall|j: int| 0 <= j < k ==> (#[trigger] sections@[j]).key@ == target.0[j].0
                && sections@[j].title@ == target.0[j].1 && views(sections@[j].items@) == target.0[j].2,
        decreases order@.len() - k,
    {
        let key = order[k].as_str();
        assert(key@ == views(order@)[k as int]);
        let sec = sub_table_of(t, key);
        let title = match get_value(&sec, "title") {
            Some(TomlValue::Str(x)) => owned(x.as_str()),
            _ => String::new(),
        };
        let items = string_list(&sec, "items");
        sections.push(Section { key: owned(key), title, items });
        k = k + 1;
    }
    let glyphs = match get_value(t, "glyphs") {
        Some(TomlValue::Bool(b)) => *b,
        _ => true,
    };
    let r = Surface { sections, glyphs };
    assert(surface_view(r).0 =~= target.0);
    r
}

// ── Resolving a configuration ─────────────────────────────────────────────

/// The user's document with the profile of the detected machine merged over
/// it (unchanged without a machine, or when its block is not a table).
pub open spec fn with_machine(user: Entries, machines: Entries, machine: Option<Seq<char>>) -> Entries {
    match machine {
        Some(m) => match lookup(machines, m) {
            Some(TomlView::Table(p)) => merge_tables(user, p),
            _ => user,
        },
        None => user,
    }
}

/// The panel block of a document with its orientation block
/// (`panel_vertical` or `panel_horizontal`) merged over it.
pub open spec fn oriented_panel(doc: Entries, vertical: bool) -> Entries {
    let panel = sub_table(doc, "panel"@);
    match lookup(doc, if vertical { "panel_vertical"@ } else { "panel_horizontal"@ }) {
        Some(TomlView::Table(o)) => merge_tables(panel, o),
        _ => panel,
    }
}

/// The resolved document: the machine profile merged in, and the panel
/// block replaced by its oriented form.
pub open spec fn resolved_doc(user: Entries, machines: Entries, machine: Option<Seq<char>>, vertical: bool) -> Entries {
    let doc = with_machine(user, machines, machine);
    put(doc, "panel"@, TomlView::Table(oriented_panel(doc, vertical)))
}

/// The text of an optional string slice.
pub open spec fn opt_text(o: Option<&str>) -> Option<Seq<char>> {
    match o {
        Some(s) => Some(s@),
        None => None,
    }
}

/// Resolves a user document (see [`resolved_doc`]).
pub fn merged_config(user: &TomlValue, machines: &TomlValue, machine: Option<&str>, vertical: bool) -> (r: TomlValue)
    ensures
        tv(r) == TomlView::Table(resolved_doc(entries_of(tv(*user)), entries_of(tv(*machines)), opt_text(machine), vertical)),
{
    proof {
        reveal_strlit("panel");
        reveal_strlit("panel_vertical");
        reveal_strlit("panel_horizontal");
    }
    let empty: Vec<(String, TomlValue)> = Vec::new();
    assert(entries_view(empty@) =~= Seq::<(Seq<char>, TomlView)>::empty());
    let base: Vec<(String, TomlValue)> = match user {
        TomlValue::Table(t) => {
            proof {
                lemma_tv_table(*t);
            }
            copy_entries(t)
        },
        _ => empty,
    };
    let ghost u = entries_of(tv(*user));
    assert(entries_view(base@) == u);
    let doc = match (machine, machines) {
        (Some(m), TomlValue::Table(ms)) => {
            proof {
                lemma_tv_table(*ms);
            }
            match get_value(ms, m) {
                Some(TomlValue::Table(p)) => {
                    proof {
                        lemma_tv_table(*p);
                    }
                    merge_tables_into(base, p)
                },
                _ => base,
            }
        },
        _ => base,
    };
    let ghost d = with_machine(u, entries_of(tv(*machines)), opt_text(machine));
    assert(entries_view(doc@) == d);
    let panel = sub_table_of(&doc, "panel");
    let key = if vertical { "panel_vertical" } else { "panel_horizontal" };
    let oriented = match get_value(&doc, key) {
        Some(TomlValue::Table(o)) => {
            proof {
                lemma_tv_table(*o);
            }
            merge_tables_into(panel, o)
        },
        _ => panel,
    };
    assert(entries_view(oriented@) == oriented_panel(d, vertical));
    let mut out = doc;
    proof {
        lemma_tv_table(oriented);
    }
    put_entry(&mut out, owned("panel"), TomlValue::Table(oriented));
    proof {
        lemma_tv_table(out);
    }
    TomlValue::Table(out)
}

/// Reads the panel and tooltip surfaces of a resolved document.
pub fn config_surfaces(doc: &TomlValue) -> (r: (Surface, Surface))
    ensures
        surface_view(r.0) == surface_of(sub_table(entries_of(tv(*doc)), "panel"@)),
        surface_view(r.1) == surface_of(sub_table(entries_of(tv(*doc)), "tooltip"@)),
{
    proof {
        reveal_strlit("panel");
        reveal_strlit("tooltip");
    }
    let empty: Vec<(String, TomlValue)> = Vec::new();
    assert(entries_view(empty@) =~= Seq::<(Seq<char>, TomlView)>::empty());
    let (panel, tooltip) = match doc {
        TomlValue::Table(t) => {
            proof {
                lemma_tv_table(*t);
            }
            (sub_table_of(t, "panel"), sub_table_of(t, "tooltip"))
        },
        _ => (Vec::new(), Vec::new()),
    };
    proof {
        assert(entries_view(Seq::<(String, TomlValue)>::empty()) =~= Seq::<(Seq<char>, TomlView)>::empty());
    }
    (surface_from(&panel), surface_from(&tooltip))
}

/// A machine rule as values: name and the three optional patterns.
pub type RuleView = (Seq<char>, Option<Seq<char>>, Option<Seq<char>>, Option<Seq<char>>);

/// The value of a machine rule.
pub open spec fn rule_view(r: MachineRule) -> RuleView {
    (
        r.name@,
        match r.board_contains {
            Some(x) => Some(x@),
            None => None,
        },
        match r.board_startswith {
            Some(x) => Some(x@),
            None => None,
        },
        match r.product_contains {
            Some(x) => Some(x@),
            None => None,
        },
    )
}

/// The machine blocks of a machines document, in order: each table entry
/// with a `detect` table, with that table's string patterns.
pub open spec fn toml_rules(t: Entries) -> Seq<RuleView>
    decreases t.len(),
{
    if t.len() == 0 {
        Seq::empty()
    } else {
        let rest = toml_rules(t.drop_last());
        match t.last().1 {
            TomlView::Table(m) => match lookup(m, "detect"@) {
                Some(TomlView::Table(d)) => rest.push(
                    (t.last().0, str_at(d, "board_contains"@), str_at(d, "board_startswith"@), str_at(d, "product_contains"@)),
                ),
                _ => rest,
            },
            _ => rest,
        }
    }
}

fn str_value(t: &Vec<(String, TomlValue)>, k: &str) -> (r: Option<String>)
    ensures
        match str_at(entries_view(t@), k@) {
            Some(x) => r matches Some(y) && y@ == x,
            None => r is None,
        },
{
    match get_value(t, k) {
        Some(TomlValue::Str(x)) => Some(owned(x.as_str())),
        _ => None,
    }
}

/// The machine rules of a machines document (see [`toml_rules`]).
pub fn machine_rules(machines: &TomlValue) -> (r: Vec<MachineRule>)
    ensures
        Seq::new(r@.len(), |i: int| rule_view(r@[i])) == toml_rules(entries_of(tv(*machines))),
{
    proof {
        reveal_strlit("detect");
        reveal_strlit("board_contains");
        reveal_strlit("board_startswith");
        reveal_strlit("product_contains");
    }
    let mut out: Vec<MachineRule> = Vec::new();
    if let TomlValue::Table(t) = machines {
        proof {
            lemma_tv_table(*t);
        }
        let ghost ev = entries_view(t@);
        let mut k: usize = 0;
        while k < t.len()
            invariant
                k <= t@.len(),
                ev == entries_view(t@),
                Seq::new(out@.len(), |i: int| rule_view(out@[i])) == toml_rules(ev.take(k as int)),
            decreases t@.len() - k,
        {
            let ghost before = out@;
            proof {
                assert(ev.take(k + 1).drop_last() =~= ev.take(k as int));
                assert(ev.take(k + 1).last() == ev[k as int]);
            }
            if let TomlValue::Table(m) = &t[k].1 {
                proof {
                    lemma_tv_table(*m);
                }
                if let Some(TomlValue::Table(d)) = get_value(m, "detect") {
                    proof {
                        lemma_tv_table(*d);
                    }
                    let rule = MachineRule {
                        name: owned(t[k].0.as_str()),
                        board_contains: str_value(d, "board_contains"),
                        board_startswith: str_value(d, "board_startswith"),
                        product_contains: str_value(d, "product_contains"),
                    };
                    out.push(rule);
                    assert(Seq::new(out@.len(), |i: int| rule_view(out@[i])) =~= Seq::new(
                        before.len(),
                        |i: int| rule_view(before[i]),
                    ).push(rule_view(rule)));
                }
            }
            k = k + 1;
        }
        assert(ev.take(t@.len() as int) =~= ev);
    } else {
        assert(Seq::new(out@.len(), |i: int| rule_view(out@[i])) =~= Seq::<RuleView>::empty());
    }
    out
}

/// A surface with each section's items narrowed to those that satisfy
/// `keep`.
pub open spec fn kept_surface(s: SurfaceView, keep: spec_fn(Seq<char>) -> bool) -> SurfaceView {
    (Seq::new(s.0.len(), |k: int| (s.0[k].0, s.0[k].1, crate::text::kept(s.0[k].2, keep))), s.1)
}

proof fn lemma_narrowed_view(before: Surface, after: Surface, keep: spec_fn(Seq<char>) -> bool)
    requires
        narrowed(before, after, keep),
    ensures
        surface_view(after) == kept_surface(surface_view(before), keep),
{
    assert(surface_view(after).0 =~= kept_surface(surface_view(before), keep).0);
}

/// A loaded configuration: the machine it was resolved for, the panel
/// orientation, the resolved document, the two surfaces with unknown and
/// misplaced items dropped, and what was dropped from each (unknown items
/// of panel and tooltip, then misplaced ones).
pub struct LoadedConfig {
    /// The detected machine (empty when none).
    pub machine: String,
    /// Whether the panel is vertical.
    pub vertical: bool,
    /// The resolved document.
    pub document: TomlValue,
    /// The panel surface.
    pub panel: Surface,
    /// The tooltip surface.
    pub tooltip: Surface,
    /// Unknown items dropped from the panel and the tooltip.
    pub unknown: (Vec<String>, Vec<String>),
    /// Misplaced items dropped from the panel and the tooltip.
    pub misplaced: (Vec<String>, Vec<String>),
}

/// A surface of a resolved document with unknown items, then misplaced
/// ones, dropped.
pub open spec fn loaded_surface(doc: Entries, key: Seq<char>, panel: bool) -> SurfaceView {
    kept_surface(
        kept_surface(surface_of(sub_table(doc, key)), |x: Seq<char>| !unknown_entry(x)),
        if panel {
            |x: Seq<char>| !panel_misplaced(x)
        } else {
            |x: Seq<char>| !tooltip_misplaced(x)
        },
    )
}

/// Loads a configuration from the text of the user's file (`None` when
/// there is no file), the machines document, the detected machine and the
/// orientation. Without a file the configuration is empty; text that is
/// not TOML is refused; otherwise the document is resolved (see
/// [`resolved_doc`]) and its surfaces read with unknown and misplaced items
/// dropped.
pub fn load_config_text(user: Option<&str>, machines: &TomlValue, machine: Option<&str>, vertical: bool) -> (r: Result<LoadedConfig, ConfigError>)
    ensures
        match user {
            None => r matches Ok(c) && c.machine@ == (match machine {
                Some(m) => m@,
                None => Seq::empty(),
            }) && c.vertical == vertical && c.panel.sections@.len() == 0 && c.panel.glyphs
                && c.tooltip.sections@.len() == 0 && c.tooltip.glyphs,
            Some(text) => match toml_doc(text@) {
                None => r matches Err(e) && e is Toml,
                Some(d) => r matches Ok(c) && {
                    let doc = resolved_doc(entries_of(d), entries_of(tv(*machines)), opt_text(machine), vertical);
                    &&& c.machine@ == (match machine {
                        Some(m) => m@,
                        None => Seq::empty(),
                    })
                    &&& c.vertical == vertical
                    &&& tv(c.document) == TomlView::Table(doc)
                    &&& surface_view(c.panel) == loaded_surface(doc, "panel"@, true)
                    &&& surface_view(c.tooltip) == loaded_surface(doc, "tooltip"@, false)
                },
            },
        },
{
    let name = match machine {
        Some(m) => owned(m),
        None => String::new(),
    };
    match user {
        None => {
            Ok(LoadedConfig {
                machine: name,
                vertical,
                document: TomlValue::Table(Vec::new()),
                panel: Surface::default(),
                tooltip: Surface::default(),
                unknown: (Vec::new(), Vec::new()),
                misplaced: (Vec::new(), Vec::new()),
            })
        },
        Some(text) => match parse_toml(text) {
            Err(detail) => Err(ConfigError::Toml { detail }),
            Ok(parsed) => {
                let document = merged_config(&parsed, machines, machine, vertical);
                let (mut panel, mut tooltip) = config_surfaces(&document);
                let ghost p0 = panel;
                let ghost t0 = tooltip;
                let unknown = drop_unknown_items(&mut panel, &mut tooltip);
                let ghost p1 = panel;
                let ghost t1 = tooltip;
                let misplaced = drop_misplaced_items(&mut panel, &mut tooltip);
                proof {
                    reveal_strlit("panel");
                    reveal_strlit("tooltip");
                    lemma_narrowed_view(p0, p1, |x: Seq<char>| !unknown_entry(x));
                    lemma_narrowed_view(t0, t1, |x: Seq<char>| !unknown_entry(x));
                    lemma_narrowed_view(p1, panel, |x: Seq<char>| !panel_misplaced(x));
                    lemma_narrowed_view(t1, tooltip, |x: Seq<char>| !tooltip_misplaced(x));
                }
                Ok(LoadedConfig { machine: name, vertical, document, panel, tooltip, unknown, misplaced })
            },
        },
    }
}

} // verus!
