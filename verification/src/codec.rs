//! The bridge between the library's document model and the serialized
//! document values of the outside world.
//!
//! A `serde_json::Value` is opaque to verification, so a trusted function
//! takes one level of it apart (`classify`) or puts one level together
//! (`assemble`), and verified code does the recursion.  `doc_model` names
//! the document a value denotes; a value that holds a number outside the
//! signed 64-bit range denotes no document of this library.

use vstd::prelude::*;

use crate::json::JsonModel;
use crate::json::JsonValue;
use crate::json::entry_view;
use crate::json::arr_view;
use crate::json::obj_view;
use crate::json::wf_model;

verus! {

#[verifier::external_type_specification]
#[verifier::external_body]
pub struct ExSerdeValue(serde_json::Value);

/// The document a `serde_json::Value` denotes, if its numbers are all
/// signed 64-bit integers; `None` otherwise.
pub uninterp spec fn doc_model(v: serde_json::Value) -> Option<JsonModel>;

/// A depth measure on `serde_json::Value`, used to bound the recursion of
/// `decode`: the members and elements of a value sit strictly below it.
pub uninterp spec fn vdepth(v: serde_json::Value) -> nat;

/// One level of an outside document, taken apart.
pub enum Shallow {
    Null,
    Bool(bool),
    Int(i64),
    OtherNum,
    Str(String),
    Arr(Vec<serde_json::Value>),
    Obj(Vec<(String, serde_json::Value)>),
}

/// Relies on `serde_json::Value`: its variants are told apart, an integer is
/// read with `Number::as_i64`, and an object's members are listed in the
/// order `serde_json::Map` iterates them (each key held once).
#[verifier::external_body]
fn classify(v: &serde_json::Value) -> (r: Shallow)
    ensures
        r is Null ==> doc_model(*v) == Option::Some(JsonModel::Null),
        r is Bool ==> doc_model(*v) == Option::Some(JsonModel::Bool(r->Bool_0)),
        r is Int ==> doc_model(*v) == Option::Some(JsonModel::Num(r->Int_0 as int)),
        r is OtherNum ==> doc_model(*v) is None,
        r is Str ==> doc_model(*v) == Option::Some(JsonModel::Str(r->Str_0@)),
        r is Arr ==> {
            let items = r->Arr_0@;
            &&& forall|i: int| 0 <= i < items.len() ==> vdepth(#[trigger] items[i]) < vdepth(*v)
            &&& (doc_model(*v) is Some <==> forall|i: int|
                0 <= i < items.len() ==> doc_model(#[trigger] items[i]) is Some)
            &&& doc_model(*v) is Some ==> doc_model(*v)->Some_0 == JsonModel::Arr(
                Seq::new(items.len(), |i: int| doc_model(items[i])->Some_0),
            )
        },
        r is Obj ==> {
            let ents = r->Obj_0@;
            &&& forall|i: int| 0 <= i < ents.len() ==> vdepth(#[trigger] ents[i].1) < vdepth(*v)
            &&& forall|i: int, j: int|
                0 <= i < ents.len() && 0 <= j < ents.len() && i != j
                    ==> (#[trigger] ents[i].0)@ != (#[trigger] ents[j].0)@
            &&& (doc_model(*v) is Some <==> forall|i: int|
                0 <= i < ents.len() ==> doc_model(#[trigger] ents[i].1) is Some)
            &&& doc_model(*v) is Some ==> doc_model(*v)->Some_0 == JsonModel::Obj(
                Seq::new(ents.len(), |i: int| (ents[i].0@, doc_model(ents[i].1)->Some_0)),
            )
        },
{
    match v {
        serde_json::Value::Null => Shallow::Null,
        serde_json::Value::Bool(b) => Shallow::Bool(*b),
        serde_json::Value::Number(n) => match n.as_i64() {
            Option::Some(i) => Shallow::Int(i),
            Option::None => Shallow::OtherNum,
        },
        serde_json::Value::String(s) => Shallow::Str(s.clone()),
        serde_json::Value::Array(a) => Shallow::Arr(a.clone()),
        serde_json::Value::Object(o) => Shallow::Obj(
            o.iter().map(|(k, val)| (k.clone(), val.clone())).collect(),
        ),
    }
}

/// Whether two member lists hold the same members, each exactly once, in
/// possibly different orders.
pub open spec fn rearranged(
    xs: Seq<(Seq<char>, JsonModel)>,
    ys: Seq<(Seq<char>, JsonModel)>,
) -> bool {
    &&& xs.len() == ys.len()
    &&& forall|i: int| 0 <= i < xs.len() ==> ys.contains(#[trigger] xs[i])
    &&& forall|j: int| 0 <= j < ys.len() ==> xs.contains(#[trigger] ys[j])
}

/// Relies on `serde_json::Value`: one level of a document is put together
/// from its parts.  An array holds exactly the given elements in order;
/// an object with distinct keys holds exactly the given members, but in
/// the order the outside map chooses itself.
#[verifier::external_body]
fn assemble(s: Shallow) -> (r: serde_json::Value)
    ensures
        s is Null ==> doc_model(r) == Option::Some(JsonModel::Null),
        s is Bool ==> doc_model(r) == Option::Some(JsonModel::Bool(s->Bool_0)),
        s is Int ==> doc_model(r) == Option::Some(JsonModel::Num(s->Int_0 as int)),
        s is Str ==> doc_model(r) == Option::Some(JsonModel::Str(s->Str_0@)),
        s is Arr ==> {
            let items = s->Arr_0@;
            (forall|i: int| 0 <= i < items.len() ==> doc_model(#[trigger] items[i]) is Some)
                ==> doc_model(r) == Option::Some(
                JsonModel::Arr(Seq::new(items.len(), |i: int| doc_model(items[i])->Some_0)),
            )
        },
        s is Obj ==> {
            let ents = s->Obj_0@;
            ((forall|i: int, j: int|
                0 <= i < ents.len() && 0 <= j < ents.len() && i != j ==> (#[trigger] ents[i].0)@
                    != (#[trigger] ents[j].0)@) && (forall|i: int|
                0 <= i < ents.len() ==> doc_model(#[trigger] ents[i].1) is Some)) ==> {
                &&& doc_model(r) is Some
                &&& doc_model(r)->Some_0 is Obj
                &&& rearranged(
                    Seq::new(ents.len(), |i: int| (ents[i].0@, doc_model(ents[i].1)->Some_0)),
                    doc_model(r)->Some_0->Obj_0,
                )
            }
        },
{
    match s {
        Shallow::Null => serde_json::Value::Null,
        Shallow::Bool(b) => serde_json::Value::Bool(b),
        Shallow::Int(i) => serde_json::Value::Number(serde_json::Number::from(i)),
        Shallow::OtherNum => serde_json::Value::Null,
        Shallow::Str(s) => serde_json::Value::String(s),
        Shallow::Arr(a) => serde_json::Value::Array(a),
        Shallow::Obj(o) => serde_json::Value::Object(o.into_iter().collect()),
    }
}

/// Reads an outside document into the library's model, if every number in
/// it is a signed 64-bit integer.
pub(crate) fn decode(v: &serde_json::Value) -> (r: Option<JsonValue>)
    ensures
        r is Some ==> doc_model(*v) == Option::Some(r->Some_0@) && wf_model(r->Some_0@),
        r is None ==> doc_model(*v) is None,
    decreases vdepth(*v),
{
    match classify(v) {
        Shallow::Null => Option::Some(JsonValue::Null),
        Shallow::Bool(b) => Option::Some(JsonValue::Bool(b)),
        Shallow::Int(i) => Option::Some(JsonValue::Num(i)),
        Shallow::OtherNum => Option::None,
        Shallow::Str(s) => Option::Some(JsonValue::Str(s)),
        Shallow::Arr(items) => {
            let ghost iv = items@;
            let ghost dv = doc_model(*v);
            let mut out: Vec<JsonValue> = Vec::new();
            let mut i: usize = 0;
            while i < items.len()
                invariant
                    i <= iv.len(),
                    iv == items@,
                    out@.len() == i,
                    forall|k: int| 0 <= k < i
                        ==> doc_model(#[trigger] iv[k]) == Option::Some(out@[k]@),
                    forall|k: int| 0 <= k < i ==> wf_model(#[trigger] out@[k]@),
                    forall|k: int| 0 <= k < iv.len() ==> vdepth(#[trigger] iv[k]) < vdepth(*v),
                    dv == doc_model(*v),
                    (dv is Some <==> forall|k: int|
                        0 <= k < iv.len() ==> doc_model(#[trigger] iv[k]) is Some),
                    dv is Some ==> dv->Some_0 == JsonModel::Arr(
                        Seq::new(iv.len(), |k: int| doc_model(iv[k])->Some_0),
                    ),
                decreases iv.len() - i,
            {
                match decode(&items[i]) {
                    Option::Some(j) => {
                        out.push(j);
                    },
                    Option::None => {
                        proof {
                            assert(doc_model(iv[i as int]) is None);
                        }
                        return Option::None;
                    },
                }
                i += 1;
            }
            proof {
                assert forall|k: int| 0 <= k < arr_view(out).len() implies wf_model(
                    #[trigger] arr_view(out)[k],
                ) by {
                    assert(arr_view(out)[k] == out@[k]@);
                }
                assert(crate::json::wf_list(arr_view(out)));
            }
            let r = JsonValue::Arr(out);
            proof {
                assert(dv is Some);
                assert(arr_view(r->Arr_0) =~= Seq::new(iv.len(), |k: int| doc_model(iv[k])->Some_0));
            }
            Option::Some(r)
        },
        Shallow::Obj(ents) => {
            let ghost ev = ents@;
            let ghost dv = doc_model(*v);
            let mut out: Vec<(String, JsonValue)> = Vec::new();
            let mut i: usize = 0;
            while i < ents.len()
                invariant
                    i <= ev.len(),
                    ev == ents@,
                    out@.len() == i,
                    forall|k: int| 0 <= k < i
                        ==> doc_model(#[trigger] ev[k].1) == Option::Some(out@[k].1@),
                    forall|k: int| 0 <= k < i ==> wf_model(#[trigger] out@[k].1@),
                    forall|k: int| 0 <= k < i ==> (#[trigger] out@[k].0)@ == ev[k].0@,
                    forall|k: int| 0 <= k < ev.len() ==> vdepth(#[trigger] ev[k].1) < vdepth(*v),
                    forall|k: int, l: int|
                        0 <= k < ev.len() && 0 <= l < ev.len() && k != l
                            ==> (#[trigger] ev[k].0)@ != (#[trigger] ev[l].0)@,
                    dv == doc_model(*v),
                    (dv is Some <==> forall|k: int|
                        0 <= k < ev.len() ==> doc_model(#[trigger] ev[k].1) is Some),
                    dv is Some ==> dv->Some_0 == JsonModel::Obj(
                        Seq::new(ev.len(), |k: int| (ev[k].0@, doc_model(ev[k].1)->Some_0)),
                    ),
                decreases ev.len() - i,
            {
                let key = ents[i].0.clone();
                match decode(&ents[i].1) {
                    Option::Some(j) => {
                        out.push((key, j));
                    },
                    Option::None => {
                        proof {
                            assert(doc_model(ev[i as int].1) is None);
                        }
                        return Option::None;
                    },
                }
                i += 1;
            }
            proof {
                assert forall|k: int| 0 <= k < obj_view(out).len() implies crate::json::wf_entry(
                    #[trigger] obj_view(out)[k],
                ) by {
                    assert(obj_view(out)[k] == entry_view(out@[k]));
                    assert(entry_view(out@[k]).1 == out@[k].1@);
                }
                assert forall|k: int, l: int|
                    0 <= k < obj_view(out).len() && 0 <= l < obj_view(out).len() && k != l implies (
                #[trigger] obj_view(out)[k].0) != (#[trigger] obj_view(out)[l].0) by {
                    assert(obj_view(out)[k].0 == out@[k].0@);
                    assert(obj_view(out)[l].0 == out@[l].0@);
                    assert(out@[k].0@ == ev[k].0@);
                    assert(out@[l].0@ == ev[l].0@);
                }
                assert(crate::json::wf_entries(obj_view(out)));
            }
            let r = JsonValue::Obj(out);
            proof {
                assert(dv is Some);
                assert(obj_view(r->Obj_0) =~= Seq::new(
                    ev.len(),
                    |k: int| (ev[k].0@, doc_model(ev[k].1)->Some_0),
                ));
            }
            Option::Some(r)
        },
    }
}

/// Whether `y` is a member with `e`'s key and a value similar to `e`'s.
pub open spec fn value_similar_to(e: (Seq<char>, JsonModel), y: (Seq<char>, JsonModel)) -> bool
    decreases e, 0int,
{
    y.0 == e.0 && similar(e.1, y.1)
}

/// Whether some member of `ys` has `e`'s key and a value similar to
/// `e`'s.
pub open spec fn entry_similar(e: (Seq<char>, JsonModel), ys: Seq<(Seq<char>, JsonModel)>) -> bool
    decreases e, 1int,
{
    exists|j: int| 0 <= j < ys.len() && value_similar_to(e, #[trigger] ys[j])
}

/// Whether every member of `xs` is matched in `ys`, by key, with a
/// similar value.
pub open spec fn entries_similar(
    xs: Seq<(Seq<char>, JsonModel)>,
    ys: Seq<(Seq<char>, JsonModel)>,
) -> bool
    decreases xs, 2int,
{
    forall|i: int| 0 <= i < xs.len() ==> entry_similar(#[trigger] xs[i], ys)
}

/// Whether some member of `xs` has `y`'s key and a value `y` is similar
/// to.
pub open spec fn some_member_matches(xs: Seq<(Seq<char>, JsonModel)>, y: (Seq<char>, JsonModel)) -> bool
    decreases xs, 1int,
{
    exists|i: int| 0 <= i < xs.len() && value_similar_to(#[trigger] xs[i], y)
}

/// Whether every member of `ys` is matched by one of `xs`, by key, with a
/// similar value.
pub open spec fn entries_cover(
    xs: Seq<(Seq<char>, JsonModel)>,
    ys: Seq<(Seq<char>, JsonModel)>,
) -> bool
    decreases xs, 2int,
{
    forall|j: int| 0 <= j < ys.len() ==> some_member_matches(xs, #[trigger] ys[j])
}

/// Whether the elements of `ai` are similar, one by one, to those of
/// `bi`.
pub open spec fn arr_similar(ai: Seq<JsonModel>, bi: Seq<JsonModel>) -> bool
    decreases ai, 2int,
{
    forall|i: int| 0 <= i < ai.len() && i < bi.len() ==> similar(#[trigger] ai[i], bi[i])
}

/// Whether two documents are equal up to the order of object members:
/// scalars equal, arrays similar element by element, objects of the same
/// size whose members match each other by key with similar values.
pub open spec fn similar(a: JsonModel, b: JsonModel) -> bool
    decreases a, 3int,
{
    match a {
        JsonModel::Null => b == a,
        JsonModel::Bool(_) => b == a,
        JsonModel::Num(_) => b == a,
        JsonModel::Str(_) => b == a,
        JsonModel::Arr(ai) => b is Arr && b->Arr_0.len() == ai.len() && arr_similar(ai, b->Arr_0),
        JsonModel::Obj(ae) => b is Obj && b->Obj_0.len() == ae.len() && entries_similar(
            ae,
            b->Obj_0,
        ) && entries_cover(ae, b->Obj_0),
    }
}

/// Writes a well-formed document of the library out as an outside
/// document that denotes it, up to the order the outside map keeps its
/// members in.
pub(crate) fn encode(v: &JsonValue) -> (r: serde_json::Value)
    ensures
        wf_model(v@) ==> doc_model(r) is Some && similar(v@, doc_model(r)->Some_0),
    decreases *v,
{
    match v {
        JsonValue::Null => assemble(Shallow::Null),
        JsonValue::Bool(b) => assemble(Shallow::Bool(*b)),
        JsonValue::Num(n) => assemble(Shallow::Int(*n)),
        JsonValue::Str(st) => assemble(Shallow::Str(st.clone())),
        JsonValue::Arr(a) => {
            let mut items: Vec<serde_json::Value> = Vec::new();
            let mut i: usize = 0;
            while i < a.len()
                invariant
                    i <= a@.len(),
                    v is Arr && *a == v->Arr_0,
                    items@.len() == i,
                    wf_model(v@) ==> forall|k: int|
                        0 <= k < i ==> doc_model(#[trigger] items@[k]) is Some && similar(
                            arr_view(*a)[k],
                            doc_model(items@[k])->Some_0,
                        ),
                decreases a@.len() - i,
            {
                proof {
                    assert(decreases_to!(a@ => a@[i as int]));
                    assert(decreases_to!(*a => a@));
                    assert(decreases_to!(*v => v->Arr_0));
                    assert(decreases_to!(*v => a@[i as int]));
                    if wf_model(v@) {
                        assert(crate::json::wf_list(arr_view(*a)));
                        assert(wf_model(arr_view(*a)[i as int]));
                        assert(a@[i as int]@ == arr_view(*a)[i as int]);
                    }
                }
                let c = encode(&a[i]);
                items.push(c);
                i += 1;
            }
            let ghost iv = items@;
            let r = assemble(Shallow::Arr(items));
            proof {
                if wf_model(v@) {
                    assert(forall|k: int|
                        0 <= k < iv.len() ==> doc_model(#[trigger] iv[k]) is Some);
                    let ms = Seq::new(iv.len(), |k: int| doc_model(iv[k])->Some_0);
                    assert(doc_model(r) == Option::Some(JsonModel::Arr(ms)));
                    assert(v@ == JsonModel::Arr(arr_view(*a)));
                    assert forall|k: int|
                        0 <= k < arr_view(*a).len() && k < ms.len() implies similar(
                        #[trigger] arr_view(*a)[k],
                        ms[k],
                    ) by {
                        assert(ms[k] == doc_model(iv[k])->Some_0);
                    }
                    assert(arr_similar(arr_view(*a), ms));
                    assert(similar(v@, JsonModel::Arr(ms)));
                }
            }
            r
        },
        JsonValue::Obj(a) => {
            let mut ents: Vec<(String, serde_json::Value)> = Vec::new();
            let mut i: usize = 0;
            while i < a.len()
                invariant
                    i <= a@.len(),
                    v is Obj && *a == v->Obj_0,
                    ents@.len() == i,
                    forall|k: int| 0 <= k < i ==> (#[trigger] ents@[k]).0@ == obj_view(*a)[k].0,
                    wf_model(v@) ==> forall|k: int|
                        0 <= k < i ==> doc_model((#[trigger] ents@[k]).1) is Some && similar(
                            obj_view(*a)[k].1,
                            doc_model(ents@[k].1)->Some_0,
                        ),
                decreases a@.len() - i,
            {
                proof {
                    assert(decreases_to!(a@ => a@[i as int]));
                    assert(decreases_to!(*a => a@));
                    assert(decreases_to!(*v => v->Obj_0));
                    assert(decreases_to!(a@[i as int] => a@[i as int].1));
                    assert(decreases_to!(*v => a@[i as int].1));
                    if wf_model(v@) {
                        assert(crate::json::wf_entries(obj_view(*a)));
                        assert(crate::json::wf_entry(obj_view(*a)[i as int]));
                        assert(a@[i as int].1@ == obj_view(*a)[i as int].1);
                    }
                }
                let c = encode(&a[i].1);
                ents.push((a[i].0.clone(), c));
                proof {
                    assert(ents@[i as int].0@ == obj_view(*a)[i as int].0);
                }
                i += 1;
            }
            let ghost ev = obj_view(*a);
            let ghost env = ents@;
            let r = assemble(Shallow::Obj(ents));
            proof {
                if wf_model(v@) {
                    assert(v@ == JsonModel::Obj(ev));
                    assert(crate::json::wf_entries(ev));
                    assert forall|x: int, y: int|
                        0 <= x < env.len() && 0 <= y < env.len() && x != y implies (
                    #[trigger] env[x].0)@ != (#[trigger] env[y].0)@ by {
                        assert(env[x].0@ == ev[x].0);
                        assert(env[y].0@ == ev[y].0);
                    }
                    assert(forall|k: int|
                        0 <= k < env.len() ==> doc_model((#[trigger] env[k]).1) is Some);
                    let p = Seq::new(env.len(), |k: int| (env[k].0@, doc_model(env[k].1)->Some_0));
                    assert(doc_model(r) is Some && doc_model(r)->Some_0 is Obj);
                    let res = doc_model(r)->Some_0->Obj_0;
                    assert(rearranged(p, res));
                    assert forall|i2: int| 0 <= i2 < ev.len() implies entry_similar(
                        #[trigger] ev[i2],
                        res,
                    ) by {
                        assert(res.contains(p[i2]));
                        let j = choose|j: int| 0 <= j < res.len() && res[j] == p[i2];
                        assert(res[j].0 == env[i2].0@);
                        assert(env[i2].0@ == ev[i2].0);
                        assert(res[j].1 == doc_model(env[i2].1)->Some_0);
                        assert(similar(ev[i2].1, res[j].1));
                        assert(value_similar_to(ev[i2], res[j]));
                    }
                    assert(entries_similar(ev, res));
                    assert forall|j2: int| 0 <= j2 < res.len() implies some_member_matches(
                        ev,
                        #[trigger] res[j2],
                    ) by {
                        assert(p.contains(res[j2]));
                        let i3 = choose|i3: int| 0 <= i3 < p.len() && p[i3] == res[j2];
                        assert(res[j2].0 == env[i3].0@);
                        assert(env[i3].0@ == ev[i3].0);
                        assert(res[j2].1 == doc_model(env[i3].1)->Some_0);
                        assert(similar(ev[i3].1, res[j2].1));
                        assert(value_similar_to(ev[i3], res[j2]));
                    }
                    assert(entries_cover(ev, res));
                    assert(res.len() == ev.len());
                    assert(similar(v@, doc_model(r)->Some_0));
                }
            }
            r
        },
    }
}

} // verus!
