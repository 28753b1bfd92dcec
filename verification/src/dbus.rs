//! D-Bus calls through `busctl`: the command line of a call, and the
//! reduction of busctl's JSON reply to the flat text fragments the sensors
//! read.

use vstd::prelude::*;

use crate::domain::boundary::{BoundaryError, BusKind, DbusArgument, DbusRequest};
use crate::text::{owned, push_str, str_eq, views};

verus! {

broadcast use vstd::string::group_string_axioms;

/// A JSON value as busctl prints it; numbers keep their printed text and
/// objects their members in order.
#[derive(Debug, PartialEq, Eq)]
pub enum JsonValue {
    /// `null`.
    Null,
    /// `true` or `false`.
    Bool(bool),
    /// A number, as printed.
    Number(String),
    /// A string.
    String(String),
    /// An array.
    Array(Vec<JsonValue>),
    /// An object's members, in order.
    Object(Vec<(String, JsonValue)>),
}

/// A JSON value as values.
pub enum JsonView {
    Null,
    Bool(bool),
    Number(Seq<char>),
    String(Seq<char>),
    Array(Seq<JsonView>),
    Object(Seq<(Seq<char>, JsonView)>),
}

/// The value of a JSON value.
pub open spec fn jv(v: JsonValue) -> JsonView
    decreases v,
{
    match v {
        JsonValue::Null => JsonView::Null,
        JsonValue::Bool(b) => JsonView::Bool(b),
        JsonValue::Number(n) => JsonView::Number(n@),
        JsonValue::String(s) => JsonView::String(s@),
        JsonValue::Array(a) => JsonView::Array(
            Seq::new(
                a@.len(),
                |i: int|
                    if 0 <= i < a@.len() {
                        proof {
                            assert(decreases_to!(v => a));
                            assert(decreases_to!(a => a@));
                            assert(decreases_to!(a@ => a@[i]));
                        }
                        jv(a@[i])
                    } else {
                        JsonView::Null
                    },
            ),
        ),
        JsonValue::Object(m) => JsonView::Object(
            Seq::new(
                m@.len(),
                |i: int|
                    if 0 <= i < m@.len() {
                        proof {
                            assert(decreases_to!(v => m));
                            assert(decreases_to!(m => m@));
                            assert(decreases_to!(m@ => m@[i]));
                            assert(decreases_to!(m@[i] => m@[i].1));
                        }
                        (m@[i].0@, jv(m@[i].1))
                    } else {
                        (Seq::empty(), JsonView::Null)
                    },
            ),
        ),
    }
}

/// The JSON document `serde_json` reads from `bytes`, or `None` when they
/// are not JSON.
pub uninterp spec fn json_doc(bytes: Seq<u8>) -> Option<JsonView>;

#[verifier::external_type_specification]
#[verifier::external_body]
pub struct ExJson(serde_json::Value);

/// Converts a parsed JSON value into a [`JsonValue`], variant for variant;
/// numbers are printed.
#[verifier::external_body]
fn from_json(v: serde_json::Value) -> JsonValue {
    match v {
        serde_json::Value::Null => JsonValue::Null,
        serde_json::Value::Bool(b) => JsonValue::Bool(b),
        serde_json::Value::Number(n) => JsonValue::Number(n.to_string()),
        serde_json::Value::String(s) => JsonValue::String(s),
        serde_json::Value::Array(a) => JsonValue::Array(a.into_iter().map(from_json).collect()),
        serde_json::Value::Object(m) => JsonValue::Object(m.into_iter().map(|(k, v)| (k, from_json(v))).collect()),
    }
}

/// Parses busctl's JSON output with `serde_json::from_slice`: the document,
/// or the parser's message when the bytes are not JSON. What the message
/// says is not stated.
#[verifier::external_body]
pub fn parse_json(bytes: &[u8]) -> (r: Result<JsonValue, String>)
    ensures
        match r {
            Ok(v) => json_doc(bytes@) == Some(jv(v)),
            Err(_) => json_doc(bytes@) is None,
        },
{
    match serde_json::from_slice::<serde_json::Value>(bytes) {
        Ok(v) => Ok(from_json(v)),
        Err(e) => Err(e.to_string()),
    }
}

/// The index of the first member named `key` at or after `i`.
pub open spec fn member_from(m: Seq<(String, JsonValue)>, key: Seq<char>, i: int) -> Option<int>
    decreases m.len() - i,
{
    if i < 0 || i >= m.len() {
        None
    } else if m[i].0@ == key {
        Some(i)
    } else {
        member_from(m, key, i + 1)
    }
}

/// The index of the first member named `key`.
pub open spec fn member_index(m: Seq<(String, JsonValue)>, key: Seq<char>) -> Option<int> {
    member_from(m, key, 0)
}

proof fn lemma_member_from_bounds(m: Seq<(String, JsonValue)>, key: Seq<char>, i: int)
    ensures
        match member_from(m, key, i) {
            Some(j) => i <= j < m.len() && m[j].0@ == key,
            None => true,
        },
    decreases m.len() - i,
{
    if 0 <= i < m.len() && m[i].0@ != key {
        lemma_member_from_bounds(m, key, i + 1);
    }
}

/// Finds the first member named `key` (see [`member_index`]).
fn member_of(m: &Vec<(String, JsonValue)>, key: &str) -> (r: Option<usize>)
    ensures
        match member_index(m@, key@) {
            Some(i) => 0 <= i < m@.len() && (r matches Some(k) && k == i),
            None => r is None,
        },
{
    proof {
        lemma_member_from_bounds(m@, key@, 0);
    }
    let mut k: usize = 0;
    while k < m.len()
        invariant
            k <= m@.len(),
            member_index(m@, key@) == member_from(m@, key@, k as int),
        decreases m@.len() - k,
    {
        if str_eq(m[k].0.as_str(), key) {
            return Some(k);
        }
        k = k + 1;
    }
    None
}

/// A value with its `data` member looked through: the member when the
/// value is an object that has one, else the value itself.
pub open spec fn data_of(v: JsonValue) -> JsonValue {
    match v {
        JsonValue::Object(m) => match member_index(m@, "data"@) {
            Some(i) => if 0 <= i < m@.len() {
                m@[i].1
            } else {
                v
            },
            None => v,
        },
        _ => v,
    }
}

/// The printed text of a boolean.
pub open spec fn bool_text(b: bool) -> Seq<char> {
    if b {
        "true"@
    } else {
        "false"@
    }
}

/// The text of one value, its `data` member looked through once (see
/// [`scalar_of_inner`]).
pub open spec fn scalar_of(v: JsonValue) -> Seq<char>
    decreases v, 1int,
{
    match v {
        JsonValue::Object(m) => match member_index(m@, "data"@) {
            Some(i) => if 0 <= i < m@.len() {
                scalar_of_inner(m@[i].1)
            } else {
                Seq::empty()
            },
            None => Seq::empty(),
        },
        _ => scalar_of_inner(v),
    }
}

/// The text of a value whose `data` member has been looked through: a
/// string, a boolean or a number as printed, the only element of a
/// one-element array, else nothing.
pub open spec fn scalar_of_inner(d: JsonValue) -> Seq<char>
    decreases d, 0int,
{
    match d {
        JsonValue::String(t) => t@,
        JsonValue::Bool(b) => bool_text(b),
        JsonValue::Number(n) => n@,
        JsonValue::Array(vs) => if vs@.len() == 1 {
            scalar_of(vs@[0])
        } else {
            Seq::empty()
        },
        _ => Seq::empty(),
    }
}

/// Every scalar under a value, in order: its `data` member looked through,
/// arrays and objects walked element by element, anything else one text
/// (see [`scalar_of`]).
pub open spec fn flatten_of(v: JsonValue) -> Seq<Seq<char>>
    decreases v, 2int,
{
    match v {
        JsonValue::Object(m) => match member_index(m@, "data"@) {
            Some(i) => if 0 <= i < m@.len() {
                flatten_data(m@[i].1)
            } else {
                Seq::empty()
            },
            None => flatten_data(v),
        },
        _ => flatten_data(v),
    }
}

/// [`flatten_of`] once the `data` member has been looked through.
pub open spec fn flatten_data(d: JsonValue) -> Seq<Seq<char>>
    decreases d, 1int,
{
    match d {
        JsonValue::Array(vs) => flatten_items(vs@, vs@.len()),
        JsonValue::Object(kvs) => flatten_members(kvs@, kvs@.len()),
        _ => seq![scalar_of(d)],
    }
}

/// [`flatten_of`] of the first `n` items, in order.
pub open spec fn flatten_items(vs: Seq<JsonValue>, n: nat) -> Seq<Seq<char>>
    decreases vs, n,
{
    if n == 0 || n > vs.len() {
        Seq::empty()
    } else {
        flatten_items(vs, (n - 1) as nat) + flatten_of(vs[n - 1])
    }
}

/// [`flatten_of`] of the values of the first `n` members, in order.
pub open spec fn flatten_members(kvs: Seq<(String, JsonValue)>, n: nat) -> Seq<Seq<char>>
    decreases kvs, n,
{
    if n == 0 || n > kvs.len() {
        Seq::empty()
    } else {
        flatten_members(kvs, (n - 1) as nat) + flatten_of(kvs[n - 1].1)
    }
}

/// A value with its `data` member looked through, and then, when that is a
/// one-element array, its element with the element's `data` looked through.
pub open spec fn unwrapped(v: JsonValue) -> JsonValue {
    let d = data_of(v);
    match d {
        JsonValue::Array(vs) => if vs@.len() == 1 {
            data_of(vs@[0])
        } else {
            d
        },
        _ => d,
    }
}

/// The name and value text of the first `n` members.
pub open spec fn members_text(p: Seq<(String, JsonValue)>, n: nat) -> Seq<Seq<char>>
    decreases n,
{
    if n == 0 || n > p.len() {
        Seq::empty()
    } else {
        members_text(p, (n - 1) as nat) + seq![p[n - 1].0@, scalar_of(p[n - 1].1)]
    }
}

/// A `GetAll` reply: each property's name, then its value's text.
pub open spec fn properties_text(v: JsonValue) -> Seq<Seq<char>> {
    match unwrapped(v) {
        JsonValue::Object(p) => members_text(p@, p@.len()),
        _ => Seq::empty(),
    }
}

/// The interface name of a UDisks2 block device.
pub open spec fn block_interface() -> Seq<char> {
    "org.freedesktop.UDisks2.Block"@
}

/// One interface of a managed object: its name, and for a block device the
/// drive it belongs to.
pub open spec fn interface_text(name: Seq<char>, props: JsonValue) -> Seq<Seq<char>> {
    seq![name] + if name == block_interface() {
        match data_of(props) {
            JsonValue::Object(p) => match member_index(p@, "Drive"@) {
                Some(i) => if 0 <= i < p@.len() {
                    seq!["Block.Drive="@ + scalar_of(p@[i].1)]
                } else {
                    Seq::empty()
                },
                None => Seq::empty(),
            },
            _ => Seq::empty(),
        }
    } else {
        Seq::empty()
    }
}

/// The interfaces of the first `n` entries.
pub open spec fn interfaces_text(ifaces: Seq<(String, JsonValue)>, n: nat) -> Seq<Seq<char>>
    decreases n,
{
    if n == 0 || n > ifaces.len() {
        Seq::empty()
    } else {
        interfaces_text(ifaces, (n - 1) as nat) + interface_text(ifaces[n - 1].0@, ifaces[n - 1].1)
    }
}

/// One managed object: its path, its interfaces, and an empty separator.
pub open spec fn object_text(path: Seq<char>, interfaces: JsonValue) -> Seq<Seq<char>> {
    seq![path] + match data_of(interfaces) {
        JsonValue::Object(i) => interfaces_text(i@, i@.len()),
        _ => Seq::empty(),
    } + seq![Seq::empty()]
}

/// The first `n` managed objects.
pub open spec fn objects_text(objs: Seq<(String, JsonValue)>, n: nat) -> Seq<Seq<char>>
    decreases n,
{
    if n == 0 || n > objs.len() {
        Seq::empty()
    } else {
        objects_text(objs, (n - 1) as nat) + object_text(objs[n - 1].0@, objs[n - 1].1)
    }
}

/// A `GetManagedObjects` reply (see [`object_text`]).
pub open spec fn managed_objects_text(v: JsonValue) -> Seq<Seq<char>> {
    match unwrapped(v) {
        JsonValue::Object(o) => objects_text(o@, o@.len()),
        _ => Seq::empty(),
    }
}

proof fn lemma_interfaces_listed(ifaces: Seq<(String, JsonValue)>, n: nat)
    requires
        n <= ifaces.len(),
    ensures
        interfaces_text(ifaces, n).len() >= n,
        forall|j: int| 0 <= j < n ==> interfaces_text(ifaces, n).contains(#[trigger] ifaces[j].0@),
    decreases n,
{
    if n > 0 {
        lemma_interfaces_listed(ifaces, (n - 1) as nat);
        let prev = interfaces_text(ifaces, (n - 1) as nat);
        let last = interface_text(ifaces[n - 1].0@, ifaces[n - 1].1);
        let all = interfaces_text(ifaces, n);
        assert(all == prev + last);
        assert(last[0] == ifaces[n - 1].0@);
        assert(all[prev.len() as int] == ifaces[n - 1].0@);
        assert forall|j: int| 0 <= j < n implies all.contains(#[trigger] ifaces[j].0@) by {
            if j < n - 1 {
                let w = choose|w: int| 0 <= w < prev.len() && prev[w] == ifaces[j].0@;
                assert(all[w] == prev[w]);
            }
        }
    }
}

proof fn lemma_objects_keep(objs: Seq<(String, JsonValue)>, n: nat, k: int, x: Seq<char>)
    requires
        n <= objs.len(),
        0 <= k < n,
        object_text(objs[k].0@, objs[k].1).contains(x),
    ensures
        objects_text(objs, n).contains(x),
    decreases n,
{
    let prev = objects_text(objs, (n - 1) as nat);
    let last = object_text(objs[n - 1].0@, objs[n - 1].1);
    assert(objects_text(objs, n) == prev + last);
    if k < n - 1 {
        lemma_objects_keep(objs, (n - 1) as nat, k, x);
        let w = choose|w: int| 0 <= w < prev.len() && prev[w] == x;
        assert((prev + last)[w] == x);
    } else {
        let w = choose|w: int| 0 <= w < last.len() && last[w] == x;
        assert((prev + last)[prev.len() + w] == x);
    }
}

/// A managed objects reply lists every object: its path, then the name of
/// every one of its interfaces, in order (at least as many fragments as
/// interfaces), then an empty separator.
pub proof fn lemma_managed_objects_list_every_interface(v: JsonValue, k: int, j: int)
    requires
        unwrapped(v) is Object,
        0 <= k < unwrapped(v)->Object_0@.len(),
        data_of(unwrapped(v)->Object_0@[k].1) is Object,
        0 <= j < data_of(unwrapped(v)->Object_0@[k].1)->Object_0@.len(),
    ensures
        ({
            let o = unwrapped(v)->Object_0@;
            let i = data_of(o[k].1)->Object_0@;
            let t = object_text(o[k].0@, o[k].1);
            &&& t.len() >= i.len() + 2
            &&& t[0] == o[k].0@
            &&& t.last() == Seq::<char>::empty()
            &&& t.subrange(1, t.len() - 1).contains(i[j].0@)
            &&& managed_objects_text(v).contains(o[k].0@)
            &&& managed_objects_text(v).contains(i[j].0@)
        }),
{
    let o = unwrapped(v)->Object_0@;
    let i = data_of(o[k].1)->Object_0@;
    let t = object_text(o[k].0@, o[k].1);
    lemma_interfaces_listed(i, i.len());
    let mid = interfaces_text(i, i.len());
    assert(t == seq![o[k].0@] + mid + seq![Seq::<char>::empty()]);
    assert(t.subrange(1, t.len() - 1) =~= mid);
    let w = choose|w: int| 0 <= w < mid.len() && mid[w] == i[j].0@;
    assert(t[w + 1] == i[j].0@);
    assert(t.contains(i[j].0@));
    assert(t[0] == o[k].0@);
    assert(t.contains(o[k].0@));
    lemma_objects_keep(o, o.len(), k, o[k].0@);
    lemma_objects_keep(o, o.len(), k, i[j].0@);
}

/// A reply as text fragments, by the member called: managed objects,
/// properties, one property, or every scalar.
pub open spec fn reply_text(member: Seq<char>, reply: JsonValue) -> Seq<Seq<char>> {
    let value = data_of(reply);
    if member == "GetManagedObjects"@ {
        managed_objects_text(value)
    } else if member == "GetAll"@ {
        properties_text(value)
    } else if member == "Get"@ {
        seq![scalar_of(value)]
    } else {
        flatten_of(value)
    }
}

/// The text of one value (see [`scalar_of`]).
pub fn scalar(v: &JsonValue) -> (r: String)
    ensures
        r@ == scalar_of(*v),
    decreases v, 1int,
{
    match v {
        JsonValue::Object(m) => {
            let found = member_of(m, "data");
            match found {
                Some(i) => {
                    assert(member_index(m@, "data"@) is Some);
                    assert(i < m@.len());
                    proof {
                        assert(decreases_to!(*v => m@[i as int].1));
                    }
                    scalar_inner(&m[i].1)
                },
                None => {
                    assert(member_index(m@, "data"@) is None);
                    String::new()
                },
            }
        },
        _ => scalar_inner(v),
    }
}

fn scalar_inner(d: &JsonValue) -> (r: String)
    ensures
        r@ == scalar_of_inner(*d),
    decreases d, 0int,
{
    match d {
        JsonValue::String(t) => owned(t.as_str()),
        JsonValue::Bool(b) => if *b {
            owned("true")
        } else {
            owned("false")
        },
        JsonValue::Number(n) => owned(n.as_str()),
        JsonValue::Array(vs) => if vs.len() == 1 {
            scalar(&vs[0])
        } else {
            String::new()
        },
        _ => String::new(),
    }
}

/// A value with its `data` member looked through (see [`data_of`]).
pub fn data(v: &JsonValue) -> (r: &JsonValue)
    ensures
        *r == data_of(*v),
{
    match v {
        JsonValue::Object(m) => match member_of(m, "data") {
            Some(i) => &m[i].1,
            None => v,
        },
        _ => v,
    }
}

fn push_text(out: &mut Vec<String>, t: String)
    ensures
        views(final(out)@) == views(old(out)@).push(t@),
{
    out.push(t);
    assert(views(out@) =~= views(old(out)@).push(t@));
}

fn flatten_into(v: &JsonValue, out: &mut Vec<String>)
    ensures
        views(final(out)@) == views(old(out)@) + flatten_of(*v),
    decreases v, 2int,
{
    match v {
        JsonValue::Object(m) => match member_of(m, "data") {
            Some(i) => {
                proof {
                    assert(decreases_to!(*v => m@[i as int].1));
                }
                flatten_data_into(&m[i].1, out);
            },
            None => flatten_data_into(v, out),
        },
        _ => flatten_data_into(v, out),
    }
}

fn flatten_data_into(d: &JsonValue, out: &mut Vec<String>)
    ensures
        views(final(out)@) == views(old(out)@) + flatten_data(*d),
    decreases d, 1int,
{
    let ghost o0 = views(out@);
    match d {
        JsonValue::Array(vs) => {
            let mut k: usize = 0;
            while k < vs.len()
                invariant
                    k <= vs@.len(),
                    *d == JsonValue::Array(*vs),
                    views(out@) == o0 + flatten_items(vs@, k as nat),
                decreases vs@.len() - k,
            {
                proof {
                    assert(decreases_to!(*d => (*d)->Array_0));
                    assert((*d)->Array_0 == *vs);
                    assert(decreases_to!(*vs => vs@));
                    assert(decreases_to!(vs@ => vs@[k as int]));
                    assert(decreases_to!(*d => vs@[k as int]));
                }
                flatten_into(&vs[k], out);
                k = k + 1;
                assert(views(out@) =~= o0 + flatten_items(vs@, k as nat));
            }
        },
        JsonValue::Object(kvs) => {
            let mut k: usize = 0;
            while k < kvs.len()
                invariant
                    k <= kvs@.len(),
                    *d == JsonValue::Object(*kvs),
                    views(out@) == o0 + flatten_members(kvs@, k as nat),
                decreases kvs@.len() - k,
            {
                proof {
                    assert(decreases_to!(*d => (*d)->Object_0));
                    assert((*d)->Object_0 == *kvs);
                    assert(decreases_to!(*kvs => kvs@));
                    assert(decreases_to!(kvs@ => kvs@[k as int]));
                    assert(decreases_to!(kvs@[k as int] => kvs@[k as int].1));
                    assert(decreases_to!(*d => kvs@[k as int].1));
                }
                flatten_into(&kvs[k].1, out);
                k = k + 1;
                assert(views(out@) =~= o0 + flatten_members(kvs@, k as nat));
            }
        },
        _ => {
            let t = scalar(d);
            push_text(out, t);
            assert(views(out@) =~= o0 + flatten_data(*d));
        },
    }
}

/// Every scalar under a value, in order (see [`flatten_of`]).
pub fn flatten_scalars(v: &JsonValue) -> (r: Vec<String>)
    ensures
        views(r@) == flatten_of(*v),
{
    let mut out: Vec<String> = Vec::new();
    flatten_into(v, &mut out);
    assert(views(out@) =~= flatten_of(*v));
    out
}

fn unwrap_reply(v: &JsonValue) -> (r: &JsonValue)
    ensures
        *r == unwrapped(*v),
{
    let d = data(v);
    match d {
        JsonValue::Array(vs) => if vs.len() == 1 {
            data(&vs[0])
        } else {
            d
        },
        _ => d,
    }
}

/// A `GetAll` reply as property names and value texts (see
/// [`properties_text`]).
pub fn normalize_properties(v: &JsonValue) -> (r: Vec<String>)
    ensures
        views(r@) == properties_text(*v),
{
    let mut out: Vec<String> = Vec::new();
    let u = unwrap_reply(v);
    match u {
        JsonValue::Object(p) => {
            let mut k: usize = 0;
            while k < p.len()
                invariant
                    k <= p@.len(),
                    views(out@) == members_text(p@, k as nat),
                decreases p@.len() - k,
            {
                push_text(&mut out, owned(p[k].0.as_str()));
                push_text(&mut out, scalar(&p[k].1));
                k = k + 1;
                assert(views(out@) =~= members_text(p@, k as nat));
            }
        },
        _ => {},
    }
    assert(views(out@) =~= properties_text(*v));
    out
}

fn interface_into(name: &String, props: &JsonValue, out: &mut Vec<String>)
    ensures
        views(final(out)@) == views(old(out)@) + interface_text(name@, *props),
{
    let ghost o0 = views(out@);
    push_text(out, owned(name.as_str()));
    if str_eq(name.as_str(), "org.freedesktop.UDisks2.Block") {
        match data(props) {
            JsonValue::Object(p) => match member_of(p, "Drive") {
                Some(i) => {
                    let mut t = owned("Block.Drive=");
                    let s = scalar(&p[i].1);
                    push_str(&mut t, s.as_str());
                    push_text(out, t);
                },
                None => {},
            },
            _ => {},
        }
    }
    assert(views(out@) =~= o0 + interface_text(name@, *props));
}

/// A `GetManagedObjects` reply as object paths, interface names, block
/// drives and separators (see [`managed_objects_text`]).
pub fn normalize_managed_objects(v: &JsonValue) -> (r: Vec<String>)
    ensures
        views(r@) == managed_objects_text(*v),
{
    let mut out: Vec<String> = Vec::new();
    let u = unwrap_reply(v);
    match u {
        JsonValue::Object(objs) => {
            let mut k: usize = 0;
            while k < objs.len()
                invariant
                    k <= objs@.len(),
                    views(out@) == objects_text(objs@, k as nat),
                decreases objs@.len() - k,
            {
                let ghost before = views(out@);
                push_text(&mut out, owned(objs[k].0.as_str()));
                match data(&objs[k].1) {
                    JsonValue::Object(ifaces) => {
                        let ghost mid = views(out@);
                        let mut j: usize = 0;
                        while j < ifaces.len()
                            invariant
                                j <= ifaces@.len(),
                                views(out@) == mid + interfaces_text(ifaces@, j as nat),
                            decreases ifaces@.len() - j,
                        {
                            interface_into(&ifaces[j].0, &ifaces[j].1, &mut out);
                            j = j + 1;
                            assert(views(out@) =~= mid + interfaces_text(ifaces@, j as nat));
                        }
                    },
                    _ => {},
                }
                push_text(&mut out, String::new());
                k = k + 1;
                assert(views(out@) =~= objects_text(objs@, k as nat));
            }
        },
        _ => {},
    }
    assert(views(out@) =~= managed_objects_text(*v));
    out
}

/// A reply as the text fragments the sensors read (see [`reply_text`]).
pub fn normalize_dbus_body(member: &str, reply: &JsonValue) -> (r: Vec<String>)
    ensures
        views(r@) == reply_text(member@, *reply),
{
    let value = data(reply);
    if str_eq(member, "GetManagedObjects") {
        normalize_managed_objects(value)
    } else if str_eq(member, "GetAll") {
        normalize_properties(value)
    } else if str_eq(member, "Get") {
        let mut out: Vec<String> = Vec::new();
        push_text(&mut out, scalar(value));
        assert(views(out@) =~= seq![scalar_of(*value)]);
        out
    } else {
        flatten_scalars(value)
    }
}

// ── The call ───────────────────────────────────────────────────────────────

/// The type signature of the arguments: `s` per string, `a{sv}` per
/// empty dictionary.
pub open spec fn arg_signature(args: Seq<DbusArgument>) -> Seq<char>
    decreases args.len(),
{
    if args.len() == 0 {
        Seq::empty()
    } else {
        arg_signature(args.drop_last()) + match args.last() {
            DbusArgument::String(_) => "s"@,
            DbusArgument::EmptyStringVariantDict => "a{sv}"@,
        }
    }
}

/// The argument values as busctl takes them: a string as is, an empty
/// dictionary as its element count `0`.
pub open spec fn arg_values(args: Seq<DbusArgument>) -> Seq<Seq<char>> {
    Seq::new(
        args.len(),
        |i: int|
            match args[i] {
                DbusArgument::String(v) => v@,
                DbusArgument::EmptyStringVariantDict => "0"@,
            },
    )
}

/// The busctl command line of a request: the bus, JSON output, `call` and
/// the target, then the signature and values when there are arguments.
pub open spec fn busctl_args(r: DbusRequest) -> Seq<Seq<char>> {
    seq![
        match r.bus {
            BusKind::Session => "--user"@,
            BusKind::System => "--system"@,
        },
        "--json=short"@,
        "call"@,
        r.service@,
        r.object_path@,
        r.interface@,
        r.member@,
    ] + if r.arguments@.len() == 0 {
        Seq::empty()
    } else {
        seq![arg_signature(r.arguments@)] + arg_values(r.arguments@)
    }
}

/// Builds the busctl arguments of a request (see [`busctl_args`]).
pub fn busctl_call_args(request: &DbusRequest) -> (r: Vec<String>)
    ensures
        views(r@) == busctl_args(*request),
{
    let mut out: Vec<String> = Vec::new();
    let bus = match request.bus {
        BusKind::Session => "--user",
        BusKind::System => "--system",
    };
    push_text(&mut out, owned(bus));
    push_text(&mut out, owned("--json=short"));
    push_text(&mut out, owned("call"));
    push_text(&mut out, owned(request.service.as_str()));
    push_text(&mut out, owned(request.object_path.as_str()));
    push_text(&mut out, owned(request.interface.as_str()));
    push_text(&mut out, owned(request.member.as_str()));
    let ghost head = views(out@);
    let args = &request.arguments;
    if args.len() > 0 {
        let mut sig = String::new();
        let mut k: usize = 0;
        while k < args.len()
            invariant
                k <= args@.len(),
                sig@ == arg_signature(args@.take(k as int)),
            decreases args@.len() - k,
        {
            match &args[k] {
                DbusArgument::String(_) => push_str(&mut sig, "s"),
                DbusArgument::EmptyStringVariantDict => push_str(&mut sig, "a{sv}"),
            }
            assert(args@.take(k + 1).drop_last() =~= args@.take(k as int));
            k = k + 1;
        }
        assert(args@.take(args@.len() as int) =~= args@);
        push_text(&mut out, sig);
        let ghost with_sig = views(out@);
        let mut j: usize = 0;
        while j < args.len()
            invariant
                j <= args@.len(),
                views(out@) == with_sig + arg_values(args@).take(j as int),
            decreases args@.len() - j,
        {
            let v = match &args[j] {
                DbusArgument::String(v) => owned(v.as_str()),
                DbusArgument::EmptyStringVariantDict => owned("0"),
            };
            push_text(&mut out, v);
            j = j + 1;
            assert(views(out@) =~= with_sig + arg_values(args@).take(j as int));
        }
        assert(arg_values(args@).take(args@.len() as int) =~= arg_values(args@));
    }
    assert(views(out@) =~= busctl_args(*request));
    out
}

/// The failure of a request, with its target and `detail`.
pub fn dbus_error(request: &DbusRequest, detail: String) -> (r: BoundaryError)
    ensures
        match r {
            BoundaryError::DbusCallFailed { bus, service, path, interface, member, detail: d } => bus == request.bus
                && service@ == request.service@ && path@ == request.object_path@ && interface@ == request.interface@
                && member@ == request.member@ && d@ == detail@,
            _ => false,
        },
{
    BoundaryError::DbusCallFailed {
        bus: request.bus,
        service: owned(request.service.as_str()),
        path: owned(request.object_path.as_str()),
        interface: owned(request.interface.as_str()),
        member: owned(request.member.as_str()),
        detail,
    }
}

/// Decodes busctl's JSON reply to a request into the text fragments the
/// sensors read (see [`reply_text`]); output that is not JSON is the
/// request's failure, with the parser's message after
/// `invalid busctl JSON: `.
pub fn decode_reply(request: &DbusRequest, stdout: &[u8]) -> (r: Result<Vec<String>, BoundaryError>)
    ensures
        match json_doc(stdout@) {
            Some(d) => r matches Ok(b) && exists|v: JsonValue| #[trigger] jv(v) == d && views(b@) == reply_text(request.member@, v),
            None => r matches Err(e) && e matches BoundaryError::DbusCallFailed { bus, service, member, detail, .. } && bus
                == request.bus && service@ == request.service@ && member@ == request.member@ && detail@.len() >= 21
                && detail@.subrange(0, 21) == "invalid busctl JSON: "@,
        },
{
    match parse_json(stdout) {
        Ok(value) => {
            let body = normalize_dbus_body(request.member.as_str(), &value);
            assert(jv(value) == json_doc(stdout@)->0);
            Ok(body)
        },
        Err(message) => {
            let mut detail = owned("invalid busctl JSON: ");
            push_str(&mut detail, message.as_str());
            proof {
                reveal_strlit("invalid busctl JSON: ");
                assert(detail@.subrange(0, 21) =~= "invalid busctl JSON: "@);
            }
            Err(dbus_error(request, detail))
        },
    }
}

} // verus!
