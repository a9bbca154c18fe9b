//! Where a reply states a context window.

use crate::json::{keys_once, lemma_get_entry, JsonV};
use crate::model_probe::{
    deeper, names_window, own_window, shallower, stated_window, top_window_key, window_in,
    window_in_fields, window_in_items, window_key,
};
use crate::request::{request_json, LlmRequestV};
use vstd::prelude::*;

verus! {

/// Whether an entry of the value, so many levels down, states the window; nothing is looked for
/// in an entry that states one.
pub open spec fn states(v: JsonV, d: nat, w: usize) -> bool
    decreases d,
{
    match v {
        JsonV::Object(o) => exists|i: int|
            0 <= i < o.len() && match own_window((#[trigger] o[i]).0, o[i].1) {
                Some(x) => d == 0 && x == w,
                None => d > 0 && states(o[i].1, (d - 1) as nat, w),
            },
        JsonV::Array(a) => exists|i: int|
            0 <= i < a.len() && d > 0 && states(#[trigger] a[i], (d - 1) as nat, w),
        _ => false,
    }
}

proof fn lemma_found_is_stated(v: JsonV, base: usize)
    ensures
        window_in(v, base) matches Some(f) ==> f.1 >= base && (f.1 < usize::MAX ==> states(
            v,
            (f.1 - base) as nat,
            f.0,
        )),
    decreases v, 0int,
{
    match v {
        JsonV::Object(o) => {
            lemma_found_in_fields(v, o, o.len() as int, base);
        },
        JsonV::Array(a) => {
            lemma_found_in_items(v, a, a.len() as int, base);
        },
        _ => {},
    }
}

proof fn lemma_found_in_fields(v: JsonV, o: Seq<(Seq<char>, JsonV)>, n: int, base: usize)
    requires
        v == JsonV::Object(o),
        0 <= n <= o.len(),
    ensures
        window_in_fields(o, n, base) matches Some(f) ==> f.1 >= base && (f.1 < usize::MAX
            ==> states(v, (f.1 - base) as nat, f.0)),
    decreases o, n,
{
    if n > 0 {
        lemma_found_in_fields(v, o, n - 1, base);
        let e = o[n - 1];
        match own_window(e.0, e.1) {
            Some(w) => {
                assert(states(v, 0, w));
            },
            None => {
                lemma_found_is_stated(e.1, deeper(base));
                if let Some(f) = window_in(e.1, deeper(base)) {
                    if f.1 < usize::MAX {
                        assert(base < usize::MAX);
                        let d = (f.1 - base) as nat;
                        assert(states(e.1, (d - 1) as nat, f.0));
                        assert(o[n - 1] == e);
                        assert(states(v, d, f.0));
                    }
                }
            },
        }
    }
}

proof fn lemma_item_states(a: Seq<JsonV>, i: int, d: nat, w: usize)
    requires
        0 <= i < a.len(),
        d > 0,
        states(a[i], (d - 1) as nat, w),
    ensures
        states(JsonV::Array(a), d, w),
{
    reveal_with_fuel(states, 2);
    let v = JsonV::Array(a);
    assert(v->Array_0 == a);
    assert(v->Array_0[i] == a[i]);
}

proof fn lemma_found_in_items(v: JsonV, a: Seq<JsonV>, n: int, base: usize)
    requires
        v == JsonV::Array(a),
        0 <= n <= a.len(),
    ensures
        window_in_items(a, n, base) matches Some(f) ==> f.1 >= base && (f.1 < usize::MAX
            ==> states(v, (f.1 - base) as nat, f.0)),
    decreases a, n,
{
    if n > 0 {
        lemma_found_in_items(v, a, n - 1, base);
        lemma_found_is_stated(a[n - 1], deeper(base));
        if let Some(f) = window_in(a[n - 1], deeper(base)) {
            if f.1 < usize::MAX {
                assert(base < usize::MAX);
                let d = (f.1 - base) as nat;
                assert(states(a[n - 1], (d - 1) as nat, f.0));
                lemma_item_states(a, n - 1, d, f.0);
            }
        }
    }
}

proof fn lemma_fields_keep(o: Seq<(Seq<char>, JsonV)>, i: int, n: int, base: usize)
    requires
        0 <= i < n <= o.len(),
    ensures
        ({
            let e = match own_window(o[i].0, o[i].1) {
                Some(w) => Some((w, base)),
                None => window_in(o[i].1, deeper(base)),
            };
            e matches Some(f) ==> (window_in_fields(o, n, base) matches Some(g) && g.1 <= f.1)
        }),
    decreases n,
{
    if n > i + 1 {
        lemma_fields_keep(o, i, n - 1, base);
    }
}

proof fn lemma_items_keep(a: Seq<JsonV>, i: int, n: int, base: usize)
    requires
        0 <= i < n <= a.len(),
    ensures
        window_in(a[i], deeper(base)) matches Some(f) ==> (window_in_items(a, n, base) matches Some(
            g,
        ) && g.1 <= f.1),
    decreases n,
{
    if n > i + 1 {
        lemma_items_keep(a, i, n - 1, base);
    }
}

proof fn lemma_stated_is_found(v: JsonV, d: nat, w: usize, base: usize)
    requires
        states(v, d, w),
    ensures
        window_in(v, base) matches Some(f) && f.1 <= base + d,
    decreases d,
{
    match v {
        JsonV::Object(o) => {
            let i = choose|i: int|
                0 <= i < o.len() && match own_window((#[trigger] o[i]).0, o[i].1) {
                    Some(x) => d == 0 && x == w,
                    None => d > 0 && states(o[i].1, (d - 1) as nat, w),
                };
            if own_window(o[i].0, o[i].1) is None {
                lemma_stated_is_found(o[i].1, (d - 1) as nat, w, deeper(base));
            }
            lemma_fields_keep(o, i, o.len() as int, base);
        },
        JsonV::Array(a) => {
            let i = choose|i: int|
                0 <= i < a.len() && d > 0 && states(#[trigger] a[i], (d - 1) as nat, w);
            lemma_stated_is_found(a[i], (d - 1) as nat, w, deeper(base));
            lemma_items_keep(a, i, a.len() as int, base);
        },
        _ => {},
    }
}

/// A window that is stated anywhere in a description is found, the shallowest of them; where none
/// is stated, none is found. A depth past the largest number counts as that.
pub proof fn lemma_shallowest_window(v: JsonV, d: nat, w: usize)
    ensures
        states(v, d, w) ==> (window_in(v, 0) matches Some(f) && f.1 <= d && stated_window(v)
            == Some(f.0)),
        window_in(v, 0) matches Some(f) ==> (f.1 < usize::MAX ==> states(v, f.1 as nat, f.0)),
        stated_window(v) is None ==> !states(v, d, w),
{
    lemma_found_is_stated(v, 0);
    if states(v, d, w) {
        lemma_stated_is_found(v, d, w, 0);
    }
}

/// Of two finds the shallower counts, and the first where neither is.
pub proof fn lemma_shallower(a: (usize, usize), b: (usize, usize))
    ensures
        a.1 <= b.1 ==> shallower(Some(a), Some(b)) == Some(a),
        b.1 < a.1 ==> shallower(Some(a), Some(b)) == Some(b),
        shallower(Some(a), None) == Some(a),
        shallower(None, Some(b)) == Some(b),
{
}

proof fn lemma_key_found(o: Seq<(Seq<char>, JsonV)>, from: int, i: int)
    requires
        0 <= from <= i < o.len(),
        names_window(o[i].0),
        forall|j: int| from <= j < i ==> !names_window((#[trigger] o[j]).0),
    ensures
        window_key(o, from) == Some(o[i].0),
    decreases i - from,
{
    if from < i {
        assert(!names_window(o[from].0));
        lemma_key_found(o, from + 1, i);
    }
}

proof fn lemma_no_key(o: Seq<(Seq<char>, JsonV)>, from: int)
    requires
        0 <= from <= o.len(),
        forall|j: int| from <= j < o.len() ==> !names_window((#[trigger] o[j]).0),
    ensures
        window_key(o, from) is None,
    decreases o.len() - from,
{
    if from < o.len() {
        assert(!names_window(o[from].0));
        lemma_no_key(o, from + 1);
    }
}

/// The first key that names a window is the one that is told, and where none does none is.
pub proof fn lemma_first_window_key(o: Seq<(Seq<char>, JsonV)>, i: int)
    ensures
        0 <= i < o.len() && names_window(o[i].0) && (forall|j: int|
            0 <= j < i ==> !names_window((#[trigger] o[j]).0)) ==> top_window_key(JsonV::Object(o))
            == Some(o[i].0),
        (forall|j: int| 0 <= j < o.len() ==> !names_window((#[trigger] o[j]).0)) ==> top_window_key(
            JsonV::Object(o),
        ) is None,
{
    if 0 <= i < o.len() && names_window(o[i].0) && (forall|j: int|
        0 <= j < i ==> !names_window((#[trigger] o[j]).0)) {
        lemma_key_found(o, 0, i);
    }
    if forall|j: int| 0 <= j < o.len() ==> !names_window((#[trigger] o[j]).0) {
        lemma_no_key(o, 0);
    }
}

/// A request is written with its messages, its prompt, its tools and its grammar, each under its
/// own key, and with nothing where there is none.
pub proof fn lemma_request_is_written(r: LlmRequestV)
    ensures
        ({
            let v = request_json(r);
            &&& r.messages matches Some(m) ==> v.get("messages"@) == Some(JsonV::Array(m))
            &&& r.messages is None ==> v.get("messages"@) == Some(JsonV::Null)
            &&& v.get("prompt"@) == Some(JsonV::Str(r.prompt))
            &&& r.tools matches Some(t) ==> v.get("tools"@) == Some(JsonV::Array(t))
            &&& r.tools is None ==> v.get("tools"@) == Some(JsonV::Null)
            &&& r.grammar matches Some(g) ==> v.get("grammar"@) == Some(JsonV::Str(g))
            &&& r.grammar is None ==> v.get("grammar"@) == Some(JsonV::Null)
            &&& r.config is None ==> v.get("config"@) == Some(JsonV::Null)
        }),
{
    reveal_strlit("messages");
    reveal_strlit("prompt");
    reveal_strlit("config");
    reveal_strlit("tools");
    reveal_strlit("grammar");
    let o = request_json(r)->Object_0;
    assert(o[0].0.len() == 8 && o[1].0.len() == 6 && o[2].0.len() == 6 && o[3].0.len() == 5
        && o[4].0.len() == 7);
    assert(o[1].0[0] == 'p' && o[2].0[0] == 'c');
    assert(keys_once(o));
    lemma_get_entry(o, 0);
    lemma_get_entry(o, 1);
    lemma_get_entry(o, 2);
    lemma_get_entry(o, 3);
    lemma_get_entry(o, 4);
}

} // verus!
