//! Finds a model's context window in what a provider says of its models.
//!
//! Providers state the context length in different shapes. Rather than know each, the
//! reply is searched for a number whose name speaks of a context length, window or size;
//! the shallowest wins, and of equally deep ones the first.

use crate::endpoint::{rooted, without_slashes, Endpoint};
use crate::json::{fields, json_parse, jsons, lemma_array_view, lemma_object_view, Json, JsonV};
use crate::text::{contains, contains_str, lowercase, owned, same, to_lowercase};
use vstd::prelude::*;

verus! {

/// Whether the key names a context window.
pub open spec fn names_window(k: Seq<char>) -> bool {
    let k = lowercase(k);
    contains(k, "context"@) && (contains(k, "length"@) || contains(k, "window"@) || contains(
        k,
        "size"@,
    ))
}

/// Whether the key names a context window.
pub fn looks_like_context_field(key: &str) -> (r: bool)
    ensures
        r == names_window(key@),
{
    let k = to_lowercase(key);
    contains_str(k.as_str(), "context") && (contains_str(k.as_str(), "length") || contains_str(
        k.as_str(),
        "window",
    ) || contains_str(k.as_str(), "size"))
}

/// One level deeper; depths past the largest number count as that.
pub open spec fn deeper(depth: usize) -> usize {
    if depth < usize::MAX {
        (depth + 1) as usize
    } else {
        depth
    }
}

/// The shallower of two finds, the first where they are equally deep.
pub open spec fn shallower(a: Option<(usize, usize)>, b: Option<(usize, usize)>) -> Option<
    (usize, usize),
> {
    match (a, b) {
        (None, b) => b,
        (a, None) => a,
        (Some(x), Some(y)) => if x.1 <= y.1 {
            a
        } else {
            b
        },
    }
}

/// The window that an entry states itself: positive, and no more than two million.
pub open spec fn own_window(k: Seq<char>, v: JsonV) -> Option<usize> {
    match v.as_u64() {
        Some(n) => if names_window(k) && 0 < n <= 2_000_000 {
            Some(n as usize)
        } else {
            None
        },
        None => None,
    }
}

/// The shallowest window in a value at depth `depth`, with its depth.
pub open spec fn window_in(v: JsonV, depth: usize) -> Option<(usize, usize)>
    decreases v, 0int,
{
    match v {
        JsonV::Object(o) => window_in_fields(o, o.len() as int, depth),
        JsonV::Array(a) => window_in_items(a, a.len() as int, depth),
        _ => None,
    }
}

/// The shallowest window in the first `n` entries.
pub open spec fn window_in_fields(o: Seq<(Seq<char>, JsonV)>, n: int, depth: usize) -> Option<
    (usize, usize),
>
    decreases o, n,
{
    if n <= 0 || n > o.len() {
        None
    } else {
        shallower(
            window_in_fields(o, n - 1, depth),
            match own_window(o[n - 1].0, o[n - 1].1) {
                Some(w) => Some((w, depth)),
                None => window_in(o[n - 1].1, deeper(depth)),
            },
        )
    }
}

/// The shallowest window in the first `n` items.
pub open spec fn window_in_items(a: Seq<JsonV>, n: int, depth: usize) -> Option<(usize, usize)>
    decreases a, n,
{
    if n <= 0 || n > a.len() {
        None
    } else {
        shallower(
            window_in_items(a, n - 1, depth),
            window_in(a[n - 1], deeper(depth)),
        )
    }
}

/// The window that a description of a model states.
pub open spec fn stated_window(v: JsonV) -> Option<usize> {
    match window_in(v, 0) {
        Some(f) => Some(f.0),
        None => None,
    }
}

/// The position, from `i` on, of the first model with the id.
pub open spec fn model_from(a: Seq<JsonV>, model: Seq<char>, i: int) -> Option<int>
    decreases a.len() - i,
{
    if i < 0 || i >= a.len() {
        None
    } else if a[i].str_at("id"@) == Some(model) {
        Some(i)
    } else {
        model_from(a, model, i + 1)
    }
}

/// The window in a list of models: that of the model with the id, else of the first.
pub open spec fn listed_window(a: Seq<JsonV>, model: Seq<char>) -> Option<usize> {
    if a.len() == 0 {
        None
    } else {
        match model_from(a, model, 0) {
            Some(i) => match stated_window(a[i]) {
                Some(w) => Some(w),
                None => stated_window(a[0]),
            },
            None => stated_window(a[0]),
        }
    }
}

/// The first key, from `i` on, that names a context window.
pub open spec fn window_key(o: Seq<(Seq<char>, JsonV)>, i: int) -> Option<Seq<char>>
    decreases o.len() - i,
{
    if i < 0 || i >= o.len() {
        None
    } else if names_window(o[i].0) {
        Some(o[i].0)
    } else {
        window_key(o, i + 1)
    }
}

/// The first key of an object that names a context window.
pub open spec fn top_window_key(v: JsonV) -> Option<Seq<char>> {
    match v {
        JsonV::Object(o) => window_key(o, 0),
        _ => None,
    }
}

/// The context window of a model in a reply: a description of one model, a list of models
/// under `data`, or a bare list.
pub open spec fn replied_window(root: JsonV, model: Seq<char>) -> Option<usize> {
    if root is Object && root.get("data"@) is None && (root.get("id"@) is Some || top_window_key(
        root,
    ) is Some) {
        stated_window(root)
    } else {
        match root.at("data"@).as_array() {
            Some(a) => listed_window(a, model),
            None => match root.as_array() {
                Some(a) => listed_window(a, model),
                None => None,
            },
        }
    }
}

/// The shallower of two finds.
fn pick(a: Option<(usize, usize)>, b: Option<(usize, usize)>) -> (r: Option<(usize, usize)>)
    ensures
        r == shallower(a, b),
{
    match (a, b) {
        (None, b) => b,
        (a, None) => a,
        (Some(x), Some(y)) => if x.1 <= y.1 {
            Some(x)
        } else {
            Some(y)
        },
    }
}

/// The shallowest window in a value at depth `depth`, with its depth.
fn walk(v: &Json, depth: usize) -> (r: Option<(usize, usize)>)
    ensures
        r == window_in(v@, depth),
    decreases v,
{
    let next: usize = if depth < usize::MAX {
        depth + 1
    } else {
        depth
    };
    match v {
        Json::Object(o) => {
            proof {
                lemma_object_view(*o);
            }
            let mut best: Option<(usize, usize)> = None;
            let mut i: usize = 0;
            while i < o.len()
                invariant
                    i <= o@.len(),
                    next == deeper(depth),
                    *v == Json::Object(*o),
                    best == window_in_fields(fields(o@), i as int, depth),
                decreases o.len() - i,
            {
                assert(fields(o@)[i as int] == (o@[i as int].0@, o@[i as int].1@));
                proof {
                    assert(decreases_to!(v => v->Object_0));
                    assert(decreases_to!(v->Object_0 => v->Object_0@));
                    assert(decreases_to!(o@ => o@[i as int]));
                    assert(decreases_to!(o@[i as int] => o@[i as int].1));
                }
                let found = match own(o[i].0.as_str(), &o[i].1) {
                    Some(w) => Some((w, depth)),
                    None => walk(&o[i].1, next),
                };
                best = pick(best, found);
                i = i + 1;
            }
            best
        },
        Json::Array(a) => {
            proof {
                lemma_array_view(*a);
            }
            let mut best: Option<(usize, usize)> = None;
            let mut i: usize = 0;
            while i < a.len()
                invariant
                    i <= a@.len(),
                    next == deeper(depth),
                    *v == Json::Array(*a),
                    best == window_in_items(jsons(a@), i as int, depth),
                decreases a.len() - i,
            {
                assert(jsons(a@)[i as int] == a@[i as int]@);
                proof {
                    assert(decreases_to!(v => v->Array_0));
                    assert(decreases_to!(v->Array_0 => v->Array_0@));
                    assert(decreases_to!(a@ => a@[i as int]));
                }
                best = pick(best, walk(&a[i], next));
                i = i + 1;
            }
            best
        },
        _ => None,
    }
}

/// The window that an entry states itself.
fn own(k: &str, v: &Json) -> (r: Option<usize>)
    ensures
        r == own_window(k@, v@),
{
    match v.as_u64() {
        Some(n) => if looks_like_context_field(k) && 0 < n && n <= 2_000_000 {
            Some(n as usize)
        } else {
            None
        },
        None => None,
    }
}

/// The window that a description of a model states.
pub fn find_context_numeric(v: &Json) -> (r: Option<usize>)
    ensures
        r == stated_window(v@),
{
    match walk(v, 0) {
        Some((n, _)) => Some(n),
        None => None,
    }
}

/// The first key of an object that names a context window.
pub fn top_level_context_field(obj: &Json) -> (r: Option<String>)
    ensures
        crate::text::opt_text(r) == top_window_key(obj@),
{
    if let Json::Object(o) = obj {
        proof {
            lemma_object_view(*o);
        }
        let mut i: usize = 0;
        while i < o.len()
            invariant
                i <= o@.len(),
                obj@ == JsonV::Object(fields(o@)),
                window_key(fields(o@), 0) == window_key(fields(o@), i as int),
            decreases o.len() - i,
        {
            assert(fields(o@)[i as int].0 == o@[i as int].0@);
            if looks_like_context_field(o[i].0.as_str()) {
                return Some(o[i].0.clone());
            }
            i = i + 1;
        }
    }
    None
}

/// The window in a list of models.
fn pick_listed(a: &Vec<Json>, model: &str) -> (r: Option<usize>)
    ensures
        r == listed_window(jsons(a@), model@),
{
    if a.len() == 0 {
        return None;
    }
    assert(jsons(a@)[0] == a@[0]@);
    let mut i: usize = 0;
    while i < a.len()
        invariant
            i <= a@.len(),
            a@.len() > 0,
            jsons(a@)[0] == a@[0]@,
            model_from(jsons(a@), model@, 0) == model_from(jsons(a@), model@, i as int),
        decreases a.len() - i,
    {
        assert(jsons(a@)[i as int] == a@[i as int]@);
        let named = match a[i].str_at("id") {
            Some(id) => same(id, model),
            None => false,
        };
        if named {
            return match find_context_numeric(&a[i]) {
                Some(w) => Some(w),
                None => find_context_numeric(&a[0]),
            };
        }
        i = i + 1;
    }
    find_context_numeric(&a[0])
}

/// The context window of a model in a provider's reply.
pub fn extract_context_window(root: &Json, model: &str) -> (r: Option<usize>)
    ensures
        r == replied_window(root@, model@),
{
    if root.is_object() && root.get("data").is_none() && (root.get("id").is_some()
        || top_level_context_field(root).is_some()) {
        return find_context_numeric(root);
    }
    if let Some(d) = root.get("data") {
        if let Some(a) = d.as_array() {
            return pick_listed(a, model);
        }
    }
    match root.as_array() {
        Some(a) => pick_listed(a, model),
        None => None,
    }
}

/// The endpoints to ask for a model's context window, in turn: the model itself, then the
/// list of all models. There is nothing to ask for a model without a name.
pub fn probe_endpoints(base_url: &str, model: &str) -> (r: Vec<Endpoint>)
    ensures
        model@.len() == 0 ==> r@.len() == 0,
        model@.len() > 0 ==> r@.len() == 2 && r@[0].base_url@ == without_slashes(base_url@)
            && r@[1].base_url@ == without_slashes(base_url@) && r@[0].path@ == rooted(
            "/models/"@ + model@,
        ) && r@[1].path@ == rooted("/models"@),
{
    let mut out: Vec<Endpoint> = Vec::new();
    if crate::text::to_chars(model).len() > 0 {
        let mut path = owned("/models/");
        path.append(model);
        out.push(Endpoint::new(base_url, path.as_str()));
        out.push(Endpoint::new(base_url, "/models"));
    }
    out
}

/// The context window in one endpoint's reply; nothing where the request failed or the
/// reply is no JSON.
pub fn window_from_reply(success: bool, body: &str, model: &str) -> (r: Option<usize>)
    ensures
        r == (match json_parse(body@) {
            Some(v) => if success {
                replied_window(v, model@)
            } else {
                None
            },
            None => None,
        }),
{
    if !success {
        return None;
    }
    match Json::parse(body) {
        Some(v) => extract_context_window(&v, model),
        None => None,
    }
}

/// A window that is found is positive and no more than two million.
pub proof fn lemma_window_is_sane(v: JsonV, depth: usize)
    ensures
        window_in(v, depth) matches Some(f) ==> 0 < f.0 <= 2_000_000 && f.1 >= depth,
    decreases v, 0int,
{
    match v {
        JsonV::Object(o) => lemma_fields_window_is_sane(o, o.len() as int, depth),
        JsonV::Array(a) => lemma_items_window_is_sane(a, a.len() as int, depth),
        _ => {},
    }
}

proof fn lemma_fields_window_is_sane(o: Seq<(Seq<char>, JsonV)>, n: int, depth: usize)
    ensures
        window_in_fields(o, n, depth) matches Some(f) ==> 0 < f.0 <= 2_000_000 && f.1 >= depth,
    decreases o, n,
{
    if 0 < n <= o.len() {
        lemma_fields_window_is_sane(o, n - 1, depth);
        assert(decreases_to!(o => o[n - 1]));
        assert(decreases_to!(o[n - 1] => o[n - 1].1));
        lemma_window_is_sane(o[n - 1].1, deeper(depth));
    }
}

proof fn lemma_items_window_is_sane(a: Seq<JsonV>, n: int, depth: usize)
    ensures
        window_in_items(a, n, depth) matches Some(f) ==> 0 < f.0 <= 2_000_000 && f.1 >= depth,
    decreases a, n,
{
    if 0 < n <= a.len() {
        lemma_items_window_is_sane(a, n - 1, depth);
        assert(decreases_to!(a => a[n - 1]));
        lemma_window_is_sane(a[n - 1], deeper(depth));
    }
}

/// A window that a model states at the top of its description is the one that is found,
/// whatever its other entries hold below.
pub proof fn lemma_top_level_wins(o: Seq<(Seq<char>, JsonV)>, i: int)
    requires
        0 <= i < o.len(),
        own_window(o[i].0, o[i].1) is Some,
        forall|j: int| 0 <= j < o.len() && j != i ==> own_window((#[trigger] o[j]).0, o[j].1) is None,
    ensures
        stated_window(JsonV::Object(o)) == own_window(o[i].0, o[i].1),
{
    lemma_top_level_prefix(o, i, o.len() as int);
}

proof fn lemma_top_level_prefix(o: Seq<(Seq<char>, JsonV)>, i: int, n: int)
    requires
        0 <= i < o.len(),
        own_window(o[i].0, o[i].1) is Some,
        forall|j: int| 0 <= j < o.len() && j != i ==> own_window((#[trigger] o[j]).0, o[j].1) is None,
        0 <= n <= o.len(),
    ensures
        i < n ==> window_in_fields(o, n, 0) == Some((own_window(o[i].0, o[i].1).unwrap(), 0usize)),
        n <= i ==> (window_in_fields(o, n, 0) matches Some(f) ==> f.1 >= 1),
    decreases n,
{
    if n > 0 {
        lemma_top_level_prefix(o, i, n - 1);
        if n - 1 != i {
            assert(own_window(o[n - 1].0, o[n - 1].1) is None);
            lemma_window_is_sane(o[n - 1].1, 1);
        }
    }
}

} // verus!
