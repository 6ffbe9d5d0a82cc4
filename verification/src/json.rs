//! An ordered JSON document model.
//!
//! Generated configuration files are JSON objects. The model keeps object
//! entries in insertion order, so that rendering is deterministic, and setting
//! a key either updates it in place or appends it at the end, never disturbing
//! the other entries.

use vstd::prelude::*;

verus! {

broadcast use vstd::seq::group_seq_axioms, vstd::std_specs::vec::group_vec_axioms;

/// The mathematical value of a JSON tree: what the contracts speak of.
pub ghost enum JVal {
    Null,
    Bool(bool),
    Int(int),
    Str(Seq<char>),
    Arr(Seq<JVal>),
    Obj(Seq<(Seq<char>, JVal)>),
}

/// One `"key": value` pair of a JSON object.
pub struct Entry {
    pub key: String,
    pub val: Json,
}

/// A JSON value, with object entries kept in insertion order.
pub enum Json {
    Null,
    Bool(bool),
    Int(i64),
    Str(String),
    Arr(Vec<Json>),
    Obj(Vec<Entry>),
}

impl View for Json {
    type V = JVal;

    open spec fn view(&self) -> JVal
        decreases self,
    {
        match self {
            Json::Null => JVal::Null,
            Json::Bool(b) => JVal::Bool(*b),
            Json::Int(n) => JVal::Int(*n as int),
            Json::Str(s) => JVal::Str(s@),
            Json::Arr(items) => JVal::Arr(view_items(items@)),
            Json::Obj(entries) => JVal::Obj(view_entries(entries@)),
        }
    }
}

/// The values of a sequence of array elements.
pub open spec fn view_items(items: Seq<Json>) -> Seq<JVal>
    decreases items,
{
    if items.len() == 0 {
        Seq::empty()
    } else {
        view_items(items.subrange(0, items.len() - 1)).push(items[items.len() - 1]@)
    }
}

/// The key/value pairs of a sequence of object entries.
pub open spec fn view_entries(entries: Seq<Entry>) -> Seq<(Seq<char>, JVal)>
    decreases entries,
{
    if entries.len() == 0 {
        Seq::empty()
    } else {
        let last = entries[entries.len() - 1];
        view_entries(entries.subrange(0, entries.len() - 1)).push((last.key@, last.val@))
    }
}

pub proof fn lemma_view_items_index(items: Seq<Json>)
    ensures
        view_items(items).len() == items.len(),
        forall|i: int| 0 <= i < items.len() ==> view_items(items)[i] == items[i]@,
    decreases items,
{
    if items.len() > 0 {
        let prefix = items.subrange(0, items.len() - 1);
        lemma_view_items_index(prefix);
        assert(view_items(items) == view_items(prefix).push(items[items.len() - 1]@));
        assert(view_items(items).len() == items.len());
        assert forall|i: int| 0 <= i < items.len() implies view_items(items)[i] == items[i]@ by {
            if i < items.len() - 1 {
                assert(prefix[i] == items[i]);
                assert(view_items(items)[i] == view_items(prefix)[i]);
            }
        }
    }
}

pub proof fn lemma_view_entries_index(entries: Seq<Entry>)
    ensures
        view_entries(entries).len() == entries.len(),
        forall|i: int| 0 <= i < entries.len() ==> view_entries(entries)[i] == (
            entries[i].key@,
            entries[i].val@,
        ),
    decreases entries,
{
    if entries.len() > 0 {
        let prefix = entries.subrange(0, entries.len() - 1);
        lemma_view_entries_index(prefix);
        let last = entries[entries.len() - 1];
        assert(view_entries(entries) == view_entries(prefix).push((last.key@, last.val@)));
        assert(view_entries(entries).len() == entries.len());
        assert forall|i: int| 0 <= i < entries.len() implies view_entries(entries)[i] == (
            entries[i].key@,
            entries[i].val@,
        ) by {
            if i < entries.len() - 1 {
                assert(prefix[i] == entries[i]);
                assert(view_entries(entries)[i] == view_entries(prefix)[i]);
            }
        }
    }
}

/// True when `c` can stand in a JSON string without escaping.
pub open spec fn json_plain_char(c: char) -> bool {
    c != '"' && c != '\\' && c as u32 >= 0x20
}

/// Some entry carries key `k`.
pub open spec fn has_key(es: Seq<(Seq<char>, JVal)>, k: Seq<char>) -> bool {
    exists|i: int| 0 <= i < es.len() && es[i].0 == k
}

/// The value of the first entry with key `k`, if any.
pub open spec fn lookup(es: Seq<(Seq<char>, JVal)>, k: Seq<char>) -> Option<JVal>
    decreases es,
{
    if es.len() == 0 {
        None
    } else if es[0].0 == k {
        Some(es[0].1)
    } else {
        lookup(es.subrange(1, es.len() as int), k)
    }
}

/// `es` with key `k` set to `v`: updated in place where `k` already occurs,
/// appended at the end where it does not. No other entry moves or changes.
pub open spec fn set_key(es: Seq<(Seq<char>, JVal)>, k: Seq<char>, v: JVal) -> Seq<
    (Seq<char>, JVal),
>
    decreases es,
{
    if es.len() == 0 {
        seq![(k, v)]
    } else if es[0].0 == k {
        seq![(k, v)] + es.subrange(1, es.len() as int)
    } else {
        seq![es[0]] + set_key(es.subrange(1, es.len() as int), k, v)
    }
}

pub proof fn lemma_set_key_found(es: Seq<(Seq<char>, JVal)>, k: Seq<char>, v: JVal, i: int)
    requires
        0 <= i < es.len(),
        es[i].0 == k,
        forall|j: int| 0 <= j < i ==> es[j].0 != k,
    ensures
        set_key(es, k, v) =~= es.update(i, (k, v)),
    decreases i,
{
    if i == 0 {
        assert(set_key(es, k, v) =~= es.update(0, (k, v)));
    } else {
        let tail = es.subrange(1, es.len() as int);
        lemma_set_key_found(tail, k, v, i - 1);
        assert(seq![es[0]] + tail.update(i - 1, (k, v)) =~= es.update(i, (k, v)));
    }
}

pub proof fn lemma_set_key_absent(es: Seq<(Seq<char>, JVal)>, k: Seq<char>, v: JVal)
    requires
        forall|j: int| 0 <= j < es.len() ==> es[j].0 != k,
    ensures
        set_key(es, k, v) =~= es.push((k, v)),
    decreases es,
{
    if es.len() > 0 {
        let tail = es.subrange(1, es.len() as int);
        lemma_set_key_absent(tail, k, v);
        assert(seq![es[0]] + tail.push((k, v)) =~= es.push((k, v)));
    }
}

/// After setting `k`, looking up `k` gives the new value.
pub proof fn lemma_lookup_set_same(es: Seq<(Seq<char>, JVal)>, k: Seq<char>, v: JVal)
    ensures
        lookup(set_key(es, k, v), k) == Some(v),
        has_key(set_key(es, k, v), k),
    decreases es,
{
    let r = set_key(es, k, v);
    if es.len() == 0 {
        assert(r[0].0 == k);
    } else if es[0].0 == k {
        assert(r[0].0 == k);
    } else {
        lemma_lookup_set_same(es.subrange(1, es.len() as int), k, v);
        assert(r[0] == es[0]);
        assert(r.subrange(1, r.len() as int) =~= set_key(es.subrange(1, es.len() as int), k, v));
        let idx = choose|i: int|
            0 <= i < set_key(es.subrange(1, es.len() as int), k, v).len() && set_key(
                es.subrange(1, es.len() as int),
                k,
                v,
            )[i].0 == k;
        assert(r[idx + 1].0 == k);
    }
}

/// Setting `k` leaves every other key exactly as it was.
pub proof fn lemma_lookup_set_other(
    es: Seq<(Seq<char>, JVal)>,
    k: Seq<char>,
    v: JVal,
    k2: Seq<char>,
)
    requires
        k2 != k,
    ensures
        lookup(set_key(es, k, v), k2) == lookup(es, k2),
        has_key(set_key(es, k, v), k2) == has_key(es, k2),
    decreases es,
{
    let r = set_key(es, k, v);
    if es.len() == 0 {
        assert(r == seq![(k, v)]);
        assert(r[0].0 == k);
        assert(lookup(r, k2) == lookup(r.subrange(1, 1), k2));
        assert(r.subrange(1, 1) =~= Seq::<(Seq<char>, JVal)>::empty());
        assert(lookup(r.subrange(1, 1), k2) is None);
        assert(!has_key(r, k2)) by {
            if has_key(r, k2) {
                let i = choose|i: int| 0 <= i < r.len() && r[i].0 == k2;
                assert(r[i].0 == k);
            }
        }
    } else if es[0].0 == k {
        let tail = es.subrange(1, es.len() as int);
        assert(r == seq![(k, v)] + tail);
        assert(r[0].0 == k);
        assert(lookup(r, k2) == lookup(r.subrange(1, r.len() as int), k2));
        assert(r.subrange(1, r.len() as int) =~= tail);
        assert(lookup(es, k2) == lookup(tail, k2));
        assert(has_key(r, k2) == has_key(es, k2)) by {
            if has_key(es, k2) {
                let i = choose|i: int| 0 <= i < es.len() && es[i].0 == k2;
                assert(i != 0);
                assert(r[i].0 == k2);
            }
            if has_key(r, k2) {
                let i = choose|i: int| 0 <= i < r.len() && r[i].0 == k2;
                assert(i != 0);
                assert(es[i].0 == k2);
            }
        }
    } else {
        let tail = es.subrange(1, es.len() as int);
        lemma_lookup_set_other(tail, k, v, k2);
        assert(r == seq![es[0]] + set_key(tail, k, v));
        assert(r[0] == es[0]);
        if es[0].0 == k2 {
            assert(lookup(r, k2) == Some(r[0].1));
            assert(lookup(es, k2) == Some(es[0].1));
            assert(has_key(r, k2) && has_key(es, k2));
        } else {
            assert(lookup(r, k2) == lookup(r.subrange(1, r.len() as int), k2));
            assert(r.subrange(1, r.len() as int) =~= set_key(tail, k, v));
            assert(lookup(es, k2) == lookup(tail, k2));
            assert(has_key(r, k2) == has_key(es, k2)) by {
                if has_key(es, k2) {
                    let i = choose|i: int| 0 <= i < es.len() && es[i].0 == k2;
                    assert(i != 0);
                    assert(tail[i - 1].0 == k2);
                    assert(has_key(set_key(tail, k, v), k2));
                    let j = choose|j: int|
                        0 <= j < set_key(tail, k, v).len() && set_key(tail, k, v)[j].0 == k2;
                    assert(r[j + 1].0 == k2);
                }
                if has_key(r, k2) {
                    let i = choose|i: int| 0 <= i < r.len() && r[i].0 == k2;
                    assert(i != 0);
                    assert(set_key(tail, k, v)[i - 1].0 == k2);
                    assert(has_key(set_key(tail, k, v), k2));
                    assert(has_key(tail, k2));
                    let j = choose|j: int| 0 <= j < tail.len() && tail[j].0 == k2;
                    assert(es[j + 1].0 == k2);
                }
            }
        }
    }
}

/// The value of the first entry with key `k`, where `i` is the first index
/// carrying `k`.
pub proof fn lemma_lookup_first(es: Seq<(Seq<char>, JVal)>, k: Seq<char>, i: int)
    requires
        0 <= i < es.len(),
        es[i].0 == k,
        forall|j: int| 0 <= j < i ==> es[j].0 != k,
    ensures
        lookup(es, k) == Some(es[i].1),
        has_key(es, k),
    decreases i,
{
    if i > 0 {
        let tail = es.subrange(1, es.len() as int);
        lemma_lookup_first(tail, k, i - 1);
        assert(tail[i - 1] == es[i]);
    }
}

/// Where no entry carries `k`, lookup finds nothing.
pub proof fn lemma_lookup_absent(es: Seq<(Seq<char>, JVal)>, k: Seq<char>)
    requires
        forall|j: int| 0 <= j < es.len() ==> es[j].0 != k,
    ensures
        lookup(es, k) is None,
        !has_key(es, k),
    decreases es,
{
    if es.len() > 0 {
        let tail = es.subrange(1, es.len() as int);
        assert(forall|j: int| 0 <= j < tail.len() ==> tail[j] == es[j + 1]);
        lemma_lookup_absent(tail, k);
    }
}

/// The decimal digit `d` as a one-character string.
pub open spec fn digit_seq(d: int) -> Seq<char> {
    if d == 0 {
        "0"@
    } else if d == 1 {
        "1"@
    } else if d == 2 {
        "2"@
    } else if d == 3 {
        "3"@
    } else if d == 4 {
        "4"@
    } else if d == 5 {
        "5"@
    } else if d == 6 {
        "6"@
    } else if d == 7 {
        "7"@
    } else if d == 8 {
        "8"@
    } else {
        "9"@
    }
}

/// The decimal digits of a non-negative integer.
pub open spec fn spec_nat_chars(n: int) -> Seq<char>
    decreases n,
{
    if n < 10 {
        digit_seq(n)
    } else {
        spec_nat_chars(n / 10) + digit_seq(n % 10)
    }
}

/// The decimal rendering of an integer, with a leading minus where negative.
pub open spec fn spec_int_chars(n: int) -> Seq<char> {
    if n < 0 {
        "-"@ + spec_nat_chars(-n)
    } else {
        spec_nat_chars(n)
    }
}

/// The pretty rendering of a JSON value: two-space indentation, one entry or
/// element per line, entries in order. `pad` is the indentation already in
/// force at this depth.
pub open spec fn spec_render(v: JVal, pad: Seq<char>) -> Seq<char>
    decreases v,
{
    match v {
        JVal::Null => "null"@,
        JVal::Bool(b) => if b {
            "true"@
        } else {
            "false"@
        },
        JVal::Int(n) => spec_int_chars(n),
        JVal::Str(s) => "\""@ + s + "\""@,
        JVal::Arr(items) => if items.len() == 0 {
            "[]"@
        } else {
            "[\n"@ + render_items_chars(items, pad + "  "@) + "\n"@ + pad + "]"@
        },
        JVal::Obj(es) => if es.len() == 0 {
            "{}"@
        } else {
            "{\n"@ + render_entries_chars(es, pad + "  "@) + "\n"@ + pad + "}"@
        },
    }
}

/// Array elements, one per line at indentation `pad`, separated by commas.
pub open spec fn render_items_chars(items: Seq<JVal>, pad: Seq<char>) -> Seq<char>
    decreases items,
{
    if items.len() == 0 {
        Seq::empty()
    } else if items.len() == 1 {
        pad + spec_render(items[0], pad)
    } else {
        render_items_chars(items.subrange(0, items.len() - 1), pad) + ",\n"@ + pad + spec_render(
            items[items.len() - 1],
            pad,
        )
    }
}

/// One `"key": value` line at indentation `pad`.
pub open spec fn entry_chars(e: (Seq<char>, JVal), pad: Seq<char>) -> Seq<char>
    decreases e,
{
    pad + "\""@ + e.0 + "\": "@ + spec_render(e.1, pad)
}

/// Object entries, one per line at indentation `pad`, separated by commas.
pub open spec fn render_entries_chars(es: Seq<(Seq<char>, JVal)>, pad: Seq<char>) -> Seq<char>
    decreases es,
{
    if es.len() == 0 {
        Seq::empty()
    } else if es.len() == 1 {
        entry_chars(es[0], pad)
    } else {
        render_entries_chars(es.subrange(0, es.len() - 1), pad) + ",\n"@ + entry_chars(
            es[es.len() - 1],
            pad,
        )
    }
}

pub proof fn lemma_render_items_step(items: Seq<JVal>, pad: Seq<char>, i: int)
    requires
        0 <= i < items.len(),
    ensures
        render_items_chars(items.subrange(0, i + 1), pad) == (if i == 0 {
            pad + spec_render(items[0], pad)
        } else {
            render_items_chars(items.subrange(0, i), pad) + ",\n"@ + pad + spec_render(
                items[i],
                pad,
            )
        }),
{
    let s = items.subrange(0, i + 1);
    assert(s.len() == i + 1);
    if i == 0 {
        assert(s[0] == items[0]);
        assert(render_items_chars(s, pad) == pad + spec_render(s[0], pad));
    } else {
        assert(s.subrange(0, i) =~= items.subrange(0, i));
        assert(s[i] == items[i]);
        assert(render_items_chars(s, pad) == render_items_chars(s.subrange(0, i), pad) + ",\n"@
            + pad + spec_render(s[i], pad));
    }
}

pub proof fn lemma_render_entries_step(es: Seq<(Seq<char>, JVal)>, pad: Seq<char>, i: int)
    requires
        0 <= i < es.len(),
    ensures
        render_entries_chars(es.subrange(0, i + 1), pad) == (if i == 0 {
            entry_chars(es[0], pad)
        } else {
            render_entries_chars(es.subrange(0, i), pad) + ",\n"@ + entry_chars(es[i], pad)
        }),
{
    let s = es.subrange(0, i + 1);
    assert(s.len() == i + 1);
    if i == 0 {
        assert(s[0] == es[0]);
        assert(render_entries_chars(s, pad) == entry_chars(s[0], pad));
    } else {
        assert(s.subrange(0, i) =~= es.subrange(0, i));
        assert(s[i] == es[i]);
        assert(render_entries_chars(s, pad) == render_entries_chars(s.subrange(0, i), pad) + ",\n"@
            + entry_chars(s[i], pad));
    }
}

fn digit_str(d: u64) -> (r: &'static str)
    requires
        d < 10,
    ensures
        r@ == digit_seq(d as int),
{
    if d == 0 {
        "0"
    } else if d == 1 {
        "1"
    } else if d == 2 {
        "2"
    } else if d == 3 {
        "3"
    } else if d == 4 {
        "4"
    } else if d == 5 {
        "5"
    } else if d == 6 {
        "6"
    } else if d == 7 {
        "7"
    } else if d == 8 {
        "8"
    } else {
        "9"
    }
}

fn nat_chars(n: u64) -> (r: String)
    ensures
        r@ == spec_nat_chars(n as int),
    decreases n,
{
    if n < 10 {
        digit_str(n).to_owned()
    } else {
        let mut r = nat_chars(n / 10);
        r.append(digit_str(n % 10));
        r
    }
}

fn int_chars(n: i64) -> (r: String)
    ensures
        r@ == spec_int_chars(n as int),
{
    if n < 0 {
        let m: u64 = ((-(n + 1)) as u64) + 1;
        proof {
            assert(m as int == -(n as int));
        }
        let mut r = "-".to_owned();
        let digits = nat_chars(m);
        r.append(digits.as_str());
        r
    } else {
        nat_chars(n as u64)
    }
}

/// Renders a JSON value as pretty-printed text: the output is exactly
/// `spec_render` of its value, so equal values give byte-identical text.
#[verifier::loop_isolation(false)]
#[verifier::rlimit(60)]
pub fn render_json(v: &Json, pad: &str) -> (r: String)
    ensures
        r@ == spec_render(v@, pad@),
    decreases *v,
{
    match v {
        Json::Null => "null".to_owned(),
        Json::Bool(b) => if *b {
            "true".to_owned()
        } else {
            "false".to_owned()
        },
        Json::Int(n) => int_chars(*n),
        Json::Str(s) => {
            let mut r = "\"".to_owned();
            r.append(s.as_str());
            r.append("\"");
            r
        },
        Json::Arr(items) => {
            if items.len() == 0 {
                "[]".to_owned()
            } else {
                let ghost vitems = view_items(items@);
                proof {
                    lemma_view_items_index(items@);
                }
                let mut deeper = pad.to_owned();
                deeper.append("  ");
                let mut r = "[\n".to_owned();
                let mut i: usize = 0;
                while i < items.len()
                    invariant
                        0 < items@.len(),
                        i <= items@.len(),
                        deeper@ == pad@ + "  "@,
                        vitems == view_items(items@),
                        vitems.len() == items@.len(),
                        forall|j: int| 0 <= j < items@.len() ==> vitems[j] == items@[j]@,
                        i == 0 ==> r@ == "[\n"@,
                        i > 0 ==> r@ == "[\n"@ + render_items_chars(
                            vitems.subrange(0, i as int),
                            deeper@,
                        ),
                    decreases items@.len() - i,
                {
                    if i > 0 {
                        r.append(",\n");
                    }
                    r.append(deeper.as_str());
                    proof {
                        assert(*items == (*v)->Arr_0);
                        assert(decreases_to!(*v => (*v)->Arr_0));
                        assert(decreases_to!(*items => items@));
                        assert(decreases_to!(items@ => items@[i as int]));
                        assert(decreases_to!(*v => items@[i as int]));
                    }
                    let piece = render_json(&items[i], deeper.as_str());
                    r.append(piece.as_str());
                    proof {
                        lemma_render_items_step(vitems, deeper@, i as int);
                    }
                    i = i + 1;
                }
                r.append("\n");
                r.append(pad);
                r.append("]");
                proof {
                    assert(vitems.subrange(0, vitems.len() as int) =~= vitems);
                }
                r
            }
        },
        Json::Obj(entries) => {
            if entries.len() == 0 {
                "{}".to_owned()
            } else {
                let ghost ves = view_entries(entries@);
                proof {
                    lemma_view_entries_index(entries@);
                }
                let mut deeper = pad.to_owned();
                deeper.append("  ");
                let mut r = "{\n".to_owned();
                let mut i: usize = 0;
                while i < entries.len()
                    invariant
                        0 < entries@.len(),
                        i <= entries@.len(),
                        deeper@ == pad@ + "  "@,
                        ves == view_entries(entries@),
                        ves.len() == entries@.len(),
                        forall|j: int| 0 <= j < entries@.len() ==> ves[j] == (
                            entries@[j].key@,
                            entries@[j].val@,
                        ),
                        i == 0 ==> r@ == "{\n"@,
                        i > 0 ==> r@ == "{\n"@ + render_entries_chars(
                            ves.subrange(0, i as int),
                            deeper@,
                        ),
                    decreases entries@.len() - i,
                {
                    if i > 0 {
                        r.append(",\n");
                    }
                    r.append(deeper.as_str());
                    r.append("\"");
                    r.append(entries[i].key.as_str());
                    r.append("\": ");
                    proof {
                        assert(*entries == (*v)->Obj_0);
                        assert(decreases_to!(*v => (*v)->Obj_0));
                        assert(decreases_to!(*entries => entries@));
                        assert(decreases_to!(entries@ => entries@[i as int]));
                        assert(decreases_to!(entries@[i as int] => entries@[i as int].val));
                        assert(decreases_to!(*v => entries@[i as int].val));
                    }
                    let piece = render_json(&entries[i].val, deeper.as_str());
                    r.append(piece.as_str());
                    proof {
                        lemma_render_entries_step(ves, deeper@, i as int);
                        assert(entry_chars(ves[i as int], deeper@) == deeper@ + "\""@
                            + entries@[i as int].key@ + "\": "@ + spec_render(
                            entries@[i as int].val@,
                            deeper@,
                        ));
                    }
                    i = i + 1;
                }
                r.append("\n");
                r.append(pad);
                r.append("}");
                proof {
                    assert(ves.subrange(0, ves.len() as int) =~= ves);
                }
                r
            }
        },
    }
}

/// The key under which the compiler options live in a compiler-config file.
pub open spec fn compiler_options_key() -> Seq<char> {
    "compilerOptions"@
}

/// The three flags with which strict type-checking is switched on, set to
/// `true` in order. Every other key of `co` keeps its value and its place.
pub open spec fn strict_opts(co: Seq<(Seq<char>, JVal)>) -> Seq<(Seq<char>, JVal)> {
    set_key(
        set_key(set_key(co, "strict"@, JVal::Bool(true)), "noUncheckedIndexedAccess"@, JVal::Bool(true)),
        "noImplicitOverride"@,
        JVal::Bool(true),
    )
}

/// What applying the strict-mode decision does to a compiler-config document:
/// declined, the document is untouched; confirmed, the object under the
/// compiler-options key gains the three strict flags. A document without such
/// an object is untouched either way.
pub open spec fn spec_with_strict(es: Seq<(Seq<char>, JVal)>, enabled: bool) -> Seq<
    (Seq<char>, JVal),
> {
    if enabled {
        match lookup(es, compiler_options_key()) {
            Some(JVal::Obj(co)) => set_key(es, compiler_options_key(), JVal::Obj(strict_opts(co))),
            _ => es,
        }
    } else {
        es
    }
}

/// What setting `sub` under the nested object at `k` does: the object under
/// `k` gains `sub = v`; a document without an object at `k` is untouched,
/// and no other key anywhere moves or changes.
pub open spec fn spec_set_nested(
    es: Seq<(Seq<char>, JVal)>,
    k: Seq<char>,
    sub: Seq<char>,
    v: JVal,
) -> Seq<(Seq<char>, JVal)> {
    match lookup(es, k) {
        Some(JVal::Obj(co)) => set_key(es, k, JVal::Obj(set_key(co, sub, v))),
        _ => es,
    }
}

/// A parseable template document: a JSON object whose entries keep their
/// insertion order.
pub struct Document {
    pub entries: Vec<Entry>,
}

impl View for Document {
    type V = Seq<(Seq<char>, JVal)>;

    open spec fn view(&self) -> Seq<(Seq<char>, JVal)> {
        view_entries(self.entries@)
    }
}

impl Document {
    /// The index of the first entry carrying `key`, if any.
    fn find(&self, key: &String) -> (r: Option<usize>)
        ensures
            match r {
                Some(i) => i < self.entries@.len() && self.entries@[i as int].key@ == key@
                    && forall|j: int| 0 <= j < i ==> self.entries@[j].key@ != key@,
                None => forall|j: int| 0 <= j < self.entries@.len() ==> self.entries@[j].key@
                    != key@,
            },
    {
        let mut i: usize = 0;
        while i < self.entries.len()
            invariant
                i <= self.entries@.len(),
                forall|j: int| 0 <= j < i ==> self.entries@[j].key@ != key@,
            decreases self.entries@.len() - i,
        {
            if self.entries[i].key == *key {
                return Some(i);
            }
            i = i + 1;
        }
        None
    }

    /// Sets `key` to `val`: in place where the key already occurs, appended at
    /// the end where it does not. No other entry moves or changes.
    pub fn set(&mut self, key: String, val: Json)
        ensures
            final(self)@ == set_key(old(self)@, key@, val@),
    {
        proof {
            lemma_view_entries_index(self.entries@);
        }
        let found = self.find(&key);
        match found {
            Some(i) => {
                let ghost old_es = view_entries(self.entries@);
                self.entries.set(i, Entry { key, val });
                proof {
                    lemma_view_entries_index(self.entries@);
                    lemma_set_key_found(old_es, key@, val@, i as int);
                    assert(view_entries(self.entries@) =~= old_es.update(
                        i as int,
                        (key@, val@),
                    ));
                }
            },
            None => {
                let ghost old_es = view_entries(self.entries@);
                self.entries.push(Entry { key, val });
                proof {
                    lemma_view_entries_index(self.entries@);
                    lemma_set_key_absent(old_es, key@, val@);
                    assert(view_entries(self.entries@) =~= old_es.push((key@, val@)));
                }
            },
        }
    }

    /// The value under `key`, if any.
    pub fn get<'a>(&'a self, key: &String) -> (r: Option<&'a Json>)
        ensures
            match r {
                Some(v) => lookup(self@, key@) == Some(v@) && has_key(self@, key@),
                None => lookup(self@, key@) is None && !has_key(self@, key@),
            },
    {
        proof {
            lemma_view_entries_index(self.entries@);
        }
        match self.find(key) {
            Some(i) => {
                proof {
                    lemma_lookup_first(self@, key@, i as int);
                }
                Some(&self.entries[i].val)
            },
            None => {
                proof {
                    lemma_lookup_absent(self@, key@);
                }
                None
            },
        }
    }

    /// Sets `sub` to `val` inside the object under `key`: the dotted key path
    /// `key.sub`. A document without an object at `key` is left untouched.
    pub fn set_nested(&mut self, key: &String, sub: String, val: Json)
        ensures
            final(self)@ == spec_set_nested(old(self)@, key@, sub@, val@),
    {
        proof {
            lemma_view_entries_index(self.entries@);
        }
        let ghost old_es = view_entries(self.entries@);
        let found = self.find(key);
        match found {
            None => {
                proof {
                    lemma_lookup_absent(old_es, key@);
                }
            },
            Some(i) => {
                proof {
                    lemma_lookup_first(old_es, key@, i as int);
                }
                let e = self.entries.remove(i);
                match e.val {
                    Json::Obj(co) => {
                        let ghost co_view = view_entries(co@);
                        let mut inner = Document { entries: co };
                        inner.set(sub, val);
                        self.entries.insert(i, Entry { key: e.key, val: Json::Obj(inner.entries) });
                        proof {
                            assert(self.entries@ =~= old(self).entries@.update(
                                i as int,
                                Entry { key: e.key, val: Json::Obj(inner.entries) },
                            ));
                            lemma_view_entries_index(self.entries@);
                            lemma_view_entries_index(old(self).entries@);
                            lemma_set_key_found(
                                old_es,
                                key@,
                                JVal::Obj(set_key(co_view, sub@, val@)),
                                i as int,
                            );
                            assert(view_entries(self.entries@) =~= old_es.update(
                                i as int,
                                (key@, JVal::Obj(set_key(co_view, sub@, val@))),
                            ));
                        }
                    },
                    other => {
                        self.entries.insert(i, Entry { key: e.key, val: other });
                        proof {
                            assert(self.entries@ =~= old(self).entries@);
                            assert(self@ == old(self)@);
                        }
                    },
                }
            },
        }
    }

    /// Applies the strict-mode decision: confirmed, the three strict flags are
    /// set to `true` inside the object under the compiler-options key;
    /// declined, the document stays byte-for-byte what the template gave.
    pub fn apply_strict(&mut self, enabled: bool)
        ensures
            final(self)@ == spec_with_strict(old(self)@, enabled),
    {
        if !enabled {
            return ;
        }
        proof {
            lemma_view_entries_index(self.entries@);
        }
        let key = "compilerOptions".to_owned();
        let ghost old_es = view_entries(self.entries@);
        let found = self.find(&key);
        match found {
            None => {
                proof {
                    lemma_lookup_absent(old_es, compiler_options_key());
                }
            },
            Some(i) => {
                proof {
                    lemma_lookup_first(old_es, compiler_options_key(), i as int);
                }
                let e = self.entries.remove(i);
                match e.val {
                    Json::Obj(co) => {
                        let ghost co_view = view_entries(co@);
                        let mut inner = Document { entries: co };
                        inner.set("strict".to_owned(), Json::Bool(true));
                        inner.set("noUncheckedIndexedAccess".to_owned(), Json::Bool(true));
                        inner.set("noImplicitOverride".to_owned(), Json::Bool(true));
                        proof {
                            assert(inner@ == strict_opts(co_view));
                        }
                        self.entries.insert(i, Entry { key: e.key, val: Json::Obj(inner.entries) });
                        proof {
                            assert(self.entries@ =~= old(self).entries@.update(
                                i as int,
                                Entry { key: e.key, val: Json::Obj(inner.entries) },
                            ));
                            lemma_view_entries_index(self.entries@);
                            lemma_view_entries_index(old(self).entries@);
                            lemma_set_key_found(
                                old_es,
                                compiler_options_key(),
                                JVal::Obj(strict_opts(co_view)),
                                i as int,
                            );
                            assert(view_entries(self.entries@) =~= old_es.update(
                                i as int,
                                (compiler_options_key(), JVal::Obj(strict_opts(co_view))),
                            ));
                        }
                    },
                    other => {
                        self.entries.insert(i, Entry { key: e.key, val: other });
                        proof {
                            assert(self.entries@ =~= old(self).entries@);
                            assert(self@ == old(self)@);
                        }
                    },
                }
            },
        }
    }

    /// Renders the document as pretty-printed JSON text.
    pub fn render(self) -> (r: String)
        ensures
            r@ == spec_render(JVal::Obj(self@), Seq::empty()),
    {
        proof {
            reveal_strlit("");
            assert(""@ =~= Seq::<char>::empty());
        }
        let j = Json::Obj(self.entries);
        render_json(&j, "")
    }
}

} // verus!
