//! The library's own model of a structured resource document.
//!
//! Admission objects and the mutated objects returned by rule scripts are
//! held in this form so that the patch generator and the evaluator can be
//! reasoned about directly.  Numbers are held as signed 64-bit integers:
//! that is the range a canonical resource document uses for counts and
//! quantities, and it keeps the model free of floating point.

use vstd::prelude::*;

verus! {

/// A structured document: the canonical form of a resource object.
pub enum JsonValue {
    Null,
    Bool(bool),
    Num(i64),
    Str(String),
    Arr(Vec<JsonValue>),
    Obj(Vec<(String, JsonValue)>),
}

/// Mathematical model of a document: what a `JsonValue` denotes.
pub enum JsonModel {
    Null,
    Bool(bool),
    Num(int),
    Str(Seq<char>),
    Arr(Seq<JsonModel>),
    Obj(Seq<(Seq<char>, JsonModel)>),
}

pub open spec fn entry_view(e: (String, JsonValue)) -> (Seq<char>, JsonModel)
    decreases e,
{
    (e.0@, e.1@)
}

pub open spec fn arr_view(v: Vec<JsonValue>) -> Seq<JsonModel>
    decreases v,
{
    Seq::new(v@.len(), |i: int| if 0 <= i < v@.len() { v[i]@ } else { JsonModel::Null })
}

pub open spec fn obj_view(v: Vec<(String, JsonValue)>) -> Seq<(Seq<char>, JsonModel)>
    decreases v,
{
    Seq::new(
        v@.len(),
        |i: int| if 0 <= i < v@.len() { entry_view(v[i]) } else { (Seq::empty(), JsonModel::Null) },
    )
}

impl View for JsonValue {
    type V = JsonModel;

    open spec fn view(&self) -> JsonModel
        decreases self,
    {
        match self {
            JsonValue::Null => JsonModel::Null,
            JsonValue::Bool(b) => JsonModel::Bool(*b),
            JsonValue::Num(n) => JsonModel::Num(*n as int),
            JsonValue::Str(s) => JsonModel::Str(s@),
            JsonValue::Arr(items) => JsonModel::Arr(arr_view(*items)),
            JsonValue::Obj(entries) => JsonModel::Obj(obj_view(*entries)),
        }
    }
}

pub open spec fn wf_entry(e: (Seq<char>, JsonModel)) -> bool
    decreases e,
{
    wf_model(e.1)
}

pub open spec fn wf_list(items: Seq<JsonModel>) -> bool
    decreases items,
{
    forall|i: int| 0 <= i < items.len() ==> wf_model(#[trigger] items[i])
}

pub open spec fn wf_entries(entries: Seq<(Seq<char>, JsonModel)>) -> bool
    decreases entries,
{
    &&& forall|i: int| 0 <= i < entries.len() ==> wf_entry(#[trigger] entries[i])
    &&& forall|i: int, j: int|
        0 <= i < entries.len() && 0 <= j < entries.len() && i != j
            ==> (#[trigger] entries[i].0) != (#[trigger] entries[j].0)
}

/// A document is well formed when every object in it has pairwise distinct
/// keys, as the objects of a canonical resource document do.
pub open spec fn wf_model(m: JsonModel) -> bool
    decreases m,
{
    match m {
        JsonModel::Null => true,
        JsonModel::Bool(_) => true,
        JsonModel::Num(_) => true,
        JsonModel::Str(_) => true,
        JsonModel::Arr(items) => wf_list(items),
        JsonModel::Obj(entries) => wf_entries(entries),
    }
}

impl JsonValue {
    /// A structurally identical copy of the document.
    pub fn deep_clone(&self) -> (r: JsonValue)
        ensures
            r@ == self@,
        decreases self,
    {
        match self {
            JsonValue::Null => JsonValue::Null,
            JsonValue::Bool(b) => JsonValue::Bool(*b),
            JsonValue::Num(n) => JsonValue::Num(*n),
            JsonValue::Str(s) => JsonValue::Str(s.clone()),
            JsonValue::Arr(a) => {
                let mut items: Vec<JsonValue> = Vec::new();
                let mut i: usize = 0;
                while i < a.len()
                    invariant
                        i <= a@.len(),
                        self is Arr && *a == self->Arr_0,
                        items@.len() == i,
                        forall|k: int| 0 <= k < i ==> items@[k]@ == arr_view(*a)[k],
                    decreases a@.len() - i,
                {
                    proof {
                        assert(decreases_to!(a@ => a@[i as int]));
                        assert(decreases_to!(*a => a@));
                        assert(decreases_to!(*self => self->Arr_0));
                        assert(decreases_to!(*self => a@[i as int]));
                    }
                    let c = a[i].deep_clone();
                    items.push(c);
                    i += 1;
                }
                let r = JsonValue::Arr(items);
                proof {
                    assert(arr_view(r->Arr_0) =~= arr_view(*a));
                }
                r
            },
            JsonValue::Obj(a) => {
                let mut entries: Vec<(String, JsonValue)> = Vec::new();
                let mut i: usize = 0;
                while i < a.len()
                    invariant
                        i <= a@.len(),
                        self is Obj && *a == self->Obj_0,
                        entries@.len() == i,
                        forall|k: int| 0 <= k < i ==> entry_view(entries@[k]) == obj_view(*a)[k],
                    decreases a@.len() - i,
                {
                    proof {
                        assert(decreases_to!(a@ => a@[i as int]));
                        assert(decreases_to!(*a => a@));
                        assert(decreases_to!(*self => self->Obj_0));
                        assert(decreases_to!(a@[i as int] => a@[i as int].1));
                        assert(decreases_to!(*self => a@[i as int].1));
                    }
                    let k = a[i].0.clone();
                    let v = a[i].1.deep_clone();
                    entries.push((k, v));
                    i += 1;
                }
                let r = JsonValue::Obj(entries);
                proof {
                    assert(obj_view(r->Obj_0) =~= obj_view(*a));
                }
                r
            },
        }
    }

    /// Structural equality of two documents, decided executably.
    pub fn deep_eq(&self, other: &JsonValue) -> (r: bool)
        ensures
            r <==> self@ == other@,
        decreases self,
    {
        match self {
            JsonValue::Null => match other {
                JsonValue::Null => true,
                _ => false,
            },
            JsonValue::Bool(a) => match other {
                JsonValue::Bool(b) => *a == *b,
                _ => false,
            },
            JsonValue::Num(a) => match other {
                JsonValue::Num(b) => *a == *b,
                _ => false,
            },
            JsonValue::Str(a) => match other {
                JsonValue::Str(b) => *a == *b,
                _ => false,
            },
            JsonValue::Arr(a) => match other {
                JsonValue::Arr(b) => {
                if a.len() != b.len() {
                    proof {
                        assert(arr_view(*a).len() != arr_view(*b).len());
                    }
                    return false;
                }
                let mut i: usize = 0;
                while i < a.len()
                    invariant
                        i <= a@.len(),
                        a@.len() == b@.len(),
                        self is Arr && *a == self->Arr_0,
                        self@ == JsonModel::Arr(arr_view(*a)),
                        other@ == JsonModel::Arr(arr_view(*b)),
                        forall|k: int| 0 <= k < i ==> arr_view(*a)[k] == arr_view(*b)[k],
                    decreases a@.len() - i,
                {
                    proof {
                        assert(decreases_to!(a@ => a@[i as int]));
                        assert(decreases_to!(*a => a@));
                        assert(decreases_to!(*self => self->Arr_0));
                        assert(decreases_to!(*self => a@[i as int]));
                    }
                    if !a[i].deep_eq(&b[i]) {
                        proof {
                            assert(arr_view(*a)[i as int] != arr_view(*b)[i as int]);
                        }
                        return false;
                    }
                    i += 1;
                }
                proof {
                    assert(arr_view(*a) =~= arr_view(*b));
                }
                true
                },
                _ => false,
            },
            JsonValue::Obj(a) => match other {
                JsonValue::Obj(b) => {
                if a.len() != b.len() {
                    proof {
                        assert(obj_view(*a).len() != obj_view(*b).len());
                    }
                    return false;
                }
                let mut i: usize = 0;
                while i < a.len()
                    invariant
                        i <= a@.len(),
                        a@.len() == b@.len(),
                        self is Obj && *a == self->Obj_0,
                        self@ == JsonModel::Obj(obj_view(*a)),
                        other@ == JsonModel::Obj(obj_view(*b)),
                        forall|k: int| 0 <= k < i ==> obj_view(*a)[k] == obj_view(*b)[k],
                    decreases a@.len() - i,
                {
                    if !(a[i].0 == b[i].0) {
                        proof {
                            assert(obj_view(*a)[i as int].0 != obj_view(*b)[i as int].0);
                        }
                        return false;
                    }
                    proof {
                        assert(decreases_to!(a@ => a@[i as int]));
                        assert(decreases_to!(*a => a@));
                        assert(decreases_to!(*self => self->Obj_0));
                        assert(decreases_to!(a@[i as int] => a@[i as int].1));
                        assert(decreases_to!(*self => a@[i as int].1));
                    }
                    if !a[i].1.deep_eq(&b[i].1) {
                        proof {
                            assert(obj_view(*a)[i as int].1 != obj_view(*b)[i as int].1);
                        }
                        return false;
                    }
                    proof {
                        assert(obj_view(*a)[i as int] == obj_view(*b)[i as int]);
                    }
                    i += 1;
                }
                proof {
                    assert(obj_view(*a) =~= obj_view(*b));
                }
                true
                },
                _ => false,
            },
        }
    }
}

} // verus!
