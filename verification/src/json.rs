//! JSON values and the deep merge that fills the missing fields of stored state
//! from a newer default.
//!
//! Converting from and to `serde_json` values is done by the program around the
//! library; numbers are carried as their JSON text.

use vstd::prelude::*;
use crate::text::str_eq;

verus! {

/// A JSON value; an object is a list of fields.
#[derive(Debug, PartialEq, Eq)]
pub enum JsonValue {
    Null,
    Bool(bool),
    /// A number, by its JSON text.
    Number(String),
    Str(String),
    Array(Vec<JsonValue>),
    Object(Vec<(String, JsonValue)>),
}

/// The abstract value of a JSON value.
#[verifier::ext_equal]
pub enum JsonView {
    Null,
    Bool(bool),
    Number(Seq<char>),
    Str(Seq<char>),
    Array(Seq<JsonView>),
    Object(Seq<(Seq<char>, JsonView)>),
}

/// The abstract value of `v`.
pub open spec fn json_view(v: JsonValue) -> JsonView
    decreases v,
{
    match v {
        JsonValue::Null => JsonView::Null,
        JsonValue::Bool(b) => JsonView::Bool(b),
        JsonValue::Number(n) => JsonView::Number(n@),
        JsonValue::Str(s) => JsonView::Str(s@),
        JsonValue::Array(xs) => JsonView::Array(
            Seq::new(xs@.len(), |i: int| if 0 <= i < xs@.len() { json_view(xs@[i]) } else { JsonView::Null }),
        ),
        JsonValue::Object(m) => JsonView::Object(
            Seq::new(m@.len(), |i: int| if 0 <= i < m@.len() { (m@[i].0@, json_view(m@[i].1)) } else { (Seq::empty(), JsonView::Null) }),
        ),
    }
}


/// Whether the fields `m` have a field named `k`.
pub open spec fn has_key(m: Seq<(Seq<char>, JsonView)>, k: Seq<char>) -> bool {
    exists|i: int| 0 <= i < m.len() && #[trigger] m[i].0 == k
}

/// The value of the field named `k` of `m`.
pub open spec fn value_at(m: Seq<(Seq<char>, JsonView)>, k: Seq<char>) -> JsonView {
    m[choose|i: int| 0 <= i < m.len() && #[trigger] m[i].0 == k].1
}

/// Whether no two fields share a name.
pub open spec fn unique_keys(m: Seq<(Seq<char>, JsonView)>) -> bool {
    forall|i: int, j: int| 0 <= i < j < m.len() ==> #[trigger] m[i].0 != #[trigger] m[j].0
}

/// Whether every object, at every depth, names each field once, as JSON
/// objects do.
pub open spec fn well_formed(v: JsonView) -> bool
    decreases v,
{
    match v {
        JsonView::Array(xs) => forall|i: int| 0 <= i < xs.len() ==> well_formed(#[trigger] xs[i]),
        JsonView::Object(m) => unique_keys(m) && forall|i: int| 0 <= i < m.len() ==> well_formed(#[trigger] m[i].1),
        _ => true,
    }
}

/// Selects the fields of `other` that `m` lacks.
pub open spec fn missing_from(m: Seq<(Seq<char>, JsonView)>) -> spec_fn((Seq<char>, JsonView)) -> bool {
    |e: (Seq<char>, JsonView)| !has_key(m, e.0)
}

/// The deep merge of `other` into `base`: a missing (null) value takes the other
/// value; an empty array takes the other array; objects keep their fields, merge
/// the fields both have, and gain the fields only `other` has, after their own;
/// any other value is kept.
pub open spec fn merged_json(base: JsonView, other: JsonView) -> JsonView
    decreases base,
{
    match base {
        JsonView::Null => other,
        JsonView::Array(xs) => if xs.len() == 0 && other is Array { other } else { base },
        JsonView::Object(am) => match other {
            JsonView::Object(bm) => JsonView::Object(
                Seq::new(am.len(), |i: int| if 0 <= i < am.len() {
                    (am[i].0, if has_key(bm, am[i].0) { merged_json(am[i].1, value_at(bm, am[i].0)) } else { am[i].1 })
                } else {
                    (Seq::empty(), JsonView::Null)
                }) + bm.filter(missing_from(am)),
            ),
            _ => base,
        },
        _ => base,
    }
}

/// The views of fields.
pub open spec fn fields_view(m: Seq<(String, JsonValue)>) -> Seq<(Seq<char>, JsonView)> {
    Seq::new(m.len(), |i: int| (m[i].0@, json_view(m[i].1)))
}

proof fn lemma_object_view(m: Vec<(String, JsonValue)>)
    ensures
        json_view(JsonValue::Object(m)) == JsonView::Object(fields_view(m@)),
{
    let v = JsonValue::Object(m);
    assert(json_view(v) is Object);
    assert(fields_view(m@) =~= json_view(v)->Object_0);
}

proof fn lemma_array_view(xs: Vec<JsonValue>)
    ensures
        json_view(JsonValue::Array(xs)) == JsonView::Array(xs@.map_values(|x: JsonValue| json_view(x))),
{
    let v = JsonValue::Array(xs);
    assert(json_view(v) is Array);
    assert(xs@.map_values(|x: JsonValue| json_view(x)) =~= json_view(v)->Array_0);
}

/// A copy of `v`.
pub fn clone_json(v: &JsonValue) -> (r: JsonValue)
    ensures
        json_view(r) == json_view(*v),
    decreases v,
{
    match v {
        JsonValue::Null => JsonValue::Null,
        JsonValue::Bool(b) => JsonValue::Bool(*b),
        JsonValue::Number(n) => JsonValue::Number(n.clone()),
        JsonValue::Str(s) => JsonValue::Str(s.clone()),
        JsonValue::Array(xs) => {
            let mut out: Vec<JsonValue> = Vec::new();
            let mut i: usize = 0;
            while i < xs.len()
                invariant
                    *v == JsonValue::Array(*xs),
                    0 <= i <= xs@.len(),
                    out@.len() == i,
                    forall|j: int| 0 <= j < i ==> json_view(#[trigger] out@[j]) == json_view(xs@[j]),
                decreases xs@.len() - i,
            {
                proof {
                    vstd::std_specs::vec::axiom_vec_index_decreases(*xs, i as int);
                    assert(decreases_to!(*v => v->Array_0));
                }
                let c = clone_json(&xs[i]);
                out.push(c);
                i += 1;
            }
            proof {
                lemma_array_view(out);
                lemma_array_view(*xs);
                assert(out@.map_values(|x: JsonValue| json_view(x)) =~= xs@.map_values(|x: JsonValue| json_view(x)));
            }
            JsonValue::Array(out)
        },
        JsonValue::Object(m) => {
            let mut out: Vec<(String, JsonValue)> = Vec::new();
            let mut i: usize = 0;
            while i < m.len()
                invariant
                    *v == JsonValue::Object(*m),
                    0 <= i <= m@.len(),
                    out@.len() == i,
                    forall|j: int| 0 <= j < i ==> (#[trigger] out@[j]).0@ == m@[j].0@ && json_view(out@[j].1) == json_view(m@[j].1),
                decreases m@.len() - i,
            {
                proof {
                    vstd::std_specs::vec::axiom_vec_index_decreases(*m, i as int);
                    assert(decreases_to!(*v => v->Object_0));
                    assert(decreases_to!(m@[i as int] => m@[i as int].1));
                }
                let c = clone_json(&m[i].1);
                out.push((m[i].0.clone(), c));
                i += 1;
            }
            proof {
                lemma_object_view(out);
                lemma_object_view(*m);
                assert(fields_view(out@) =~= fields_view(m@));
            }
            JsonValue::Object(out)
        },
    }
}

proof fn lemma_value_at(m: Seq<(Seq<char>, JsonView)>, j: int)
    requires
        unique_keys(m),
        0 <= j < m.len(),
    ensures
        has_key(m, m[j].0),
        value_at(m, m[j].0) == m[j].1,
{
    let k = m[j].0;
    assert(m[j].0 == k);
    let i = choose|i: int| 0 <= i < m.len() && #[trigger] m[i].0 == k;
    if i != j {
        if i < j {
            assert(m[i].0 != m[j].0);
        } else {
            assert(m[j].0 != m[i].0);
        }
    }
}

/// The position of the field named `k` in `m`, if any.
fn key_position(m: &Vec<(String, JsonValue)>, k: &str) -> (r: Option<usize>)
    ensures
        match r {
            Some(j) => j < m@.len() && m@[j as int].0@ == k@,
            None => !has_key(fields_view(m@), k@),
        },
{
    let ghost fv = fields_view(m@);
    let mut j: usize = 0;
    while j < m.len()
        invariant
            0 <= j <= m@.len(),
            fv == fields_view(m@),
            forall|t: int| 0 <= t < j ==> #[trigger] fv[t].0 != k@,
        decreases m@.len() - j,
    {
        if str_eq(m[j].0.as_str(), k) {
            return Some(j);
        }
        assert(fv[j as int].0 == m@[j as int].0@);
        j += 1;
    }
    None
}

/// Whether `k` is among `keys`.
fn keys_contain(keys: &Vec<String>, k: &str) -> (b: bool)
    ensures
        b == exists|t: int| 0 <= t < keys@.len() && #[trigger] keys@[t]@ == k@,
{
    let mut t: usize = 0;
    while t < keys.len()
        invariant
            0 <= t <= keys@.len(),
            forall|u: int| 0 <= u < t ==> #[trigger] keys@[u]@ != k@,
        decreases keys@.len() - t,
    {
        if str_eq(keys[t].as_str(), k) {
            return true;
        }
        t += 1;
    }
    false
}

/// The value of a field of `base` merged with `other`'s fields `bm`.
pub open spec fn merged_field(bm: Seq<(Seq<char>, JsonView)>, field: (Seq<char>, JsonView)) -> JsonView {
    if has_key(bm, field.0) { merged_json(field.1, value_at(bm, field.0)) } else { field.1 }
}

/// Deep-merges `other` into `base` (see [`merged_json`]): fields that `base`
/// lacks, or holds as null, come from `other`; what `base` holds is kept.
pub fn deep_merge_json(base: JsonValue, other: JsonValue) -> (r: JsonValue)
    requires
        well_formed(json_view(base)),
        well_formed(json_view(other)),
    ensures
        json_view(r) == merged_json(json_view(base), json_view(other)),
    decreases base,
{
    let ghost base0 = base;
    let ghost bview = json_view(base);
    let ghost oview = json_view(other);
    match base {
        JsonValue::Null => {
            assert(bview == JsonView::Null);
            other
        },
        JsonValue::Bool(b) => JsonValue::Bool(b),
        JsonValue::Number(n) => JsonValue::Number(n),
        JsonValue::Str(s) => JsonValue::Str(s),
        JsonValue::Array(xs) => {
            let other_is_array = match &other {
                JsonValue::Array(_) => true,
                _ => false,
            };
            proof { lemma_array_view(xs); }
            if xs.len() == 0 && other_is_array {
                other
            } else {
                JsonValue::Array(xs)
            }
        },
        JsonValue::Object(am) => {
            match other {
                JsonValue::Object(bm) => {
                    let ghost am0 = am;
                    let ghost bm0 = bm;
                    let ghost amv = fields_view(am@);
                    let ghost bmv = fields_view(bm@);
                    proof {
                        lemma_object_view(am);
                        lemma_object_view(bm);
                        assert(bview == JsonView::Object(amv));
                        assert(oview == JsonView::Object(bmv));
                    }
                    let n = am.len();
                    let mut am = am;
                    let mut out: Vec<(String, JsonValue)> = Vec::new();
                    let mut keys: Vec<String> = Vec::new();
                    let mut i: usize = 0;
                    #[verifier::loop_isolation(false)]
                    while i < n
                        invariant
                            base0 == JsonValue::Object(am0),
                            n == am0@.len(),
                            0 <= i <= n,
                            am@ == am0@.subrange(i as int, n as int),
                            amv == fields_view(am0@),
                            bmv == fields_view(bm@),
                            bm@ == bm0@,
                            unique_keys(amv),
                            unique_keys(bmv),
                            forall|t: int| 0 <= t < amv.len() ==> well_formed(#[trigger] amv[t].1),
                            forall|t: int| 0 <= t < bmv.len() ==> well_formed(#[trigger] bmv[t].1),
                            out@.len() == i,
                            keys@.len() == i,
                            forall|t: int| 0 <= t < i ==> (#[trigger] keys@[t])@ == amv[t].0,
                            forall|t: int| 0 <= t < i ==> (#[trigger] out@[t]).0@ == amv[t].0
                                && json_view(out@[t].1) == merged_field(bmv, amv[t]),
                        decreases n - i,
                    {
                        let ghost before = am@;
                        let (k, av) = am.remove(0);
                        proof {
                            assert(before[0] == am0@[i as int]);
                            assert(am@ =~= am0@.subrange(i + 1, n as int));
                            vstd::std_specs::vec::axiom_vec_index_decreases(am0, i as int);
                            assert(decreases_to!(base0 => base0->Object_0));
                            assert(decreases_to!(am0@[i as int] => am0@[i as int].1));
                            assert(amv[i as int] == (k@, json_view(av)));
                            assert(well_formed(amv[i as int].1));
                        }
                        match key_position(&bm, k.as_str()) {
                            Some(j) => {
                                let bvc = clone_json(&bm[j].1);
                                proof {
                                    assert(bmv[j as int] == (bm@[j as int].0@, json_view(bm@[j as int].1)));
                                    lemma_value_at(bmv, j as int);
                                    assert(well_formed(bmv[j as int].1));
                                }
                                let merged = deep_merge_json(av, bvc);
                                keys.push(k.clone());
                                out.push((k, merged));
                            },
                            None => {
                                keys.push(k.clone());
                                out.push((k, av));
                            },
                        }
                        i += 1;
                    }
                    let ghost first = fields_view(out@);
                    let ghost pred = missing_from(amv);
                    let nb = bm.len();
                    let mut bm = bm;
                    let mut j: usize = 0;
                    assert(bmv.take(0).filter(pred) =~= Seq::<(Seq<char>, JsonView)>::empty());
                    assert(fields_view(out@) =~= first + bmv.take(0).filter(pred));
                    while j < nb
                        invariant
                            nb == bm0@.len(),
                            0 <= j <= nb,
                            bm@ == bm0@.subrange(j as int, nb as int),
                            bmv == fields_view(bm0@),
                            amv == fields_view(am0@),
                            pred == missing_from(amv),
                            keys@.len() == n,
                            n == amv.len(),
                            forall|t: int| 0 <= t < n ==> (#[trigger] keys@[t])@ == amv[t].0,
                            fields_view(out@) == first + bmv.take(j as int).filter(pred),
                        decreases nb - j,
                    {
                        let ghost before = bm@;
                        let ghost ob = out@;
                        let (k, v) = bm.remove(0);
                        let ghost e = (k@, json_view(v));
                        proof {
                            assert(before[0] == bm0@[j as int]);
                            assert(bm@ =~= bm0@.subrange(j + 1, nb as int));
                            assert(bmv[j as int] == e);
                            assert(bmv.take(j + 1) =~= bmv.take(j as int).push(e));
                            bmv.take(j as int).lemma_filter_push(e, pred);
                        }
                        let known = keys_contain(&keys, k.as_str());
                        proof {
                            if known {
                                let t = choose|t: int| 0 <= t < keys@.len() && #[trigger] keys@[t]@ == k@;
                                assert(amv[t].0 == k@);
                            }
                            if has_key(amv, k@) {
                                let t = choose|t: int| 0 <= t < amv.len() && #[trigger] amv[t].0 == k@;
                                assert(keys@[t]@ == k@);
                            }
                            assert(pred(e) == !known);
                        }
                        if !known {
                            out.push((k, v));
                            assert(fields_view(out@) =~= fields_view(ob).push(e));
                        }
                        j += 1;
                    }
                    proof {
                        assert(bmv.take(nb as int) =~= bmv);
                        let mv = merged_json(bview, oview);
                        assert(mv is Object);
                        assert forall|t: int| 0 <= t < n implies #[trigger] first[t] == (amv[t].0, merged_field(bmv, amv[t])) by {}
                        assert(mv->Object_0 =~= fields_view(out@));
                        lemma_object_view(out);
                    }
                    JsonValue::Object(out)
                },
                _ => JsonValue::Object(am),
            }
        },
    }
}

/// Merging a well-formed value with itself changes nothing.
pub proof fn law_merge_with_itself(v: JsonView)
    requires
        well_formed(v),
    ensures
        merged_json(v, v) == v,
    decreases v,
{
    match v {
        JsonView::Object(m) => {
            let r = merged_json(v, v)->Object_0;
            assert forall|i: int| 0 <= i < m.len() implies #[trigger] r[i] == m[i] by {
                lemma_value_at(m, i);
                assert(decreases_to!(v => m));
                assert(decreases_to!(m => m[i]));
                assert(decreases_to!(m[i] => m[i].1));
                law_merge_with_itself(m[i].1);
            }
            assert(m.filter(missing_from(m)) =~= Seq::<(Seq<char>, JsonView)>::empty()) by {
                broadcast use vstd::seq_lib::group_filter_ensures;
                if m.filter(missing_from(m)).len() > 0 {
                    let e = m.filter(missing_from(m))[0];
                    assert(missing_from(m)(e));
                    assert(m.contains(e)) by {
                        assert(m.filter(missing_from(m)).contains(e));
                        m.lemma_filter_contains_rev(missing_from(m), e);
                    }
                    let j = choose|j: int| 0 <= j < m.len() && m[j] == e;
                    assert(m[j].0 == e.0);
                }
            }
            assert(r =~= m);
        },
        _ => {},
    }
}

/// Merging objects keeps every field of the base in place, keeps the value of
/// each field that the other object lacks, and gives a field for every key of
/// the other object.
pub proof fn law_merge_keeps_base_and_adds_missing(
    am: Seq<(Seq<char>, JsonView)>,
    bm: Seq<(Seq<char>, JsonView)>,
    k: Seq<char>,
)
    ensures
        ({
            let r = merged_json(JsonView::Object(am), JsonView::Object(bm))->Object_0;
            &&& r.len() >= am.len()
            &&& forall|i: int| 0 <= i < am.len() ==> (#[trigger] r[i]).0 == am[i].0
            &&& forall|i: int| 0 <= i < am.len() && !has_key(bm, am[i].0) ==> (#[trigger] r[i]).1 == am[i].1
            &&& (has_key(am, k) || has_key(bm, k)) ==> has_key(r, k)
        }),
{
    let r = merged_json(JsonView::Object(am), JsonView::Object(bm))->Object_0;
    let f = bm.filter(missing_from(am));
    assert(r.len() == am.len() + f.len());
    if has_key(am, k) {
        let i = choose|i: int| 0 <= i < am.len() && #[trigger] am[i].0 == k;
        assert(r[i].0 == k);
    } else if has_key(bm, k) {
        let j = choose|j: int| 0 <= j < bm.len() && #[trigger] bm[j].0 == k;
        assert(missing_from(am)(bm[j]));
        bm.lemma_filter_contains(missing_from(am), j);
        let t = choose|t: int| 0 <= t < f.len() && f[t] == bm[j];
        assert(r[am.len() + t] == f[t]);
        assert(r[am.len() + t].0 == k);
    }
}

} // verus!
