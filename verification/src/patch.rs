//! The patch generator: a structural, path-addressed difference between two
//! documents, expressed as a sequence of add / remove / replace operations
//! with JSON-Pointer paths.
//!
//! The algorithm is deterministic: the operations follow the key order of the
//! two documents, and equal documents always yield the empty patch.  Object
//! members are compared key by key and descended into; any other difference
//! replaces the value at its path wholesale.

use vstd::prelude::*;

use crate::json::JsonModel;
use crate::json::JsonValue;
use crate::json::arr_view;
use crate::json::obj_view;

verus! {

/// The operation kinds of a patch.
#[derive(Clone, Copy, Debug, PartialEq, Eq, Structural)]
pub enum PatchKind {
    Add,
    Remove,
    Replace,
}

/// One patch operation: `value` is `None` exactly for `Remove`.
pub struct PatchOp {
    pub op: PatchKind,
    pub path: String,
    pub value: Option<JsonValue>,
}

/// Mathematical model of one patch operation.
pub struct PatchOpModel {
    pub op: PatchKind,
    pub path: Seq<char>,
    pub value: Option<JsonModel>,
}

impl View for PatchOp {
    type V = PatchOpModel;

    open spec fn view(&self) -> PatchOpModel {
        PatchOpModel {
            op: self.op,
            path: self.path@,
            value: match self.value {
                Option::None => Option::None,
                Option::Some(v) => Option::Some(v@),
            },
        }
    }
}

/// The model of a list of patch operations.
pub open spec fn ops_model(s: Seq<PatchOp>) -> Seq<PatchOpModel> {
    s.map_values(|o: PatchOp| o@)
}

/// A key character, escaped as a JSON-Pointer reference token requires.
pub open spec fn escape_char(c: char) -> Seq<char> {
    if c == '~' {
        seq!['~', '0']
    } else if c == '/' {
        seq!['~', '1']
    } else {
        seq![c]
    }
}

/// A whole key, escaped as a JSON-Pointer reference token.
pub open spec fn escape_key(k: Seq<char>) -> Seq<char>
    decreases k.len(),
{
    if k.len() == 0 {
        Seq::empty()
    } else {
        escape_key(k.drop_last()) + escape_char(k.last())
    }
}

/// The path of the member `key` of the object at `path`.
pub open spec fn child_path(path: Seq<char>, key: Seq<char>) -> Seq<char> {
    path + seq!['/'] + escape_key(key)
}

/// The decimal digits of a number, most significant first.
pub open spec fn dec_digits(n: nat) -> Seq<char>
    decreases n,
{
    if n < 10 {
        seq![((48 + n) as u8) as char]
    } else {
        dec_digits(n / 10) + seq![((48 + n % 10) as u8) as char]
    }
}

/// The path of the element at `i` of the array at `path`.
pub open spec fn index_path(path: Seq<char>, i: int) -> Seq<char> {
    path + seq!['/'] + dec_digits(i as nat)
}

/// The value at `k` in an object's members, scanning in member order.
pub open spec fn find_key(entries: Seq<(Seq<char>, JsonModel)>, k: Seq<char>) -> Option<JsonModel>
    decreases entries.len(),
{
    if entries.len() == 0 {
        Option::None
    } else if entries[0].0 == k {
        Option::Some(entries[0].1)
    } else {
        find_key(entries.subrange(1, entries.len() as int), k)
    }
}

/// The operations that record how one member of `a` changed in `b`:
/// removed, or descended into.
pub open spec fn entry_diff(
    path: Seq<char>,
    e: (Seq<char>, JsonModel),
    be: Seq<(Seq<char>, JsonModel)>,
) -> Seq<PatchOpModel>
    decreases e, 0int,
{
    match find_key(be, e.0) {
        Option::None => seq![
            PatchOpModel { op: PatchKind::Remove, path: child_path(path, e.0), value: Option::None },
        ],
        Option::Some(bv) => diff_model(child_path(path, e.0), e.1, bv),
    }
}

/// The operations for the members of `a` (removals and changes), from
/// member `i` on, in member order.
pub open spec fn obj_diff(
    path: Seq<char>,
    ae: Seq<(Seq<char>, JsonModel)>,
    be: Seq<(Seq<char>, JsonModel)>,
    i: int,
) -> Seq<PatchOpModel>
    decreases ae, ae.len() - i,
{
    if i < 0 || i >= ae.len() {
        Seq::empty()
    } else {
        entry_diff(path, ae[i], be) + obj_diff(path, ae, be, i + 1)
    }
}

/// The additions for the members of `b` that `a` lacks, from member `i` on,
/// in member order.
pub open spec fn obj_adds(
    path: Seq<char>,
    ae: Seq<(Seq<char>, JsonModel)>,
    be: Seq<(Seq<char>, JsonModel)>,
    i: int,
) -> Seq<PatchOpModel>
    decreases be.len() - i,
{
    if i < 0 || i >= be.len() {
        Seq::empty()
    } else {
        let here = if find_key(ae, be[i].0) is Some {
            Seq::<PatchOpModel>::empty()
        } else {
            seq![
                PatchOpModel {
                    op: PatchKind::Add,
                    path: child_path(path, be[i].0),
                    value: Option::Some(be[i].1),
                },
            ]
        };
        here + obj_adds(path, ae, be, i + 1)
    }
}

/// The element-by-element changes of the common prefix of two arrays,
/// from element `i` on.
pub open spec fn arr_changes(
    path: Seq<char>,
    ai: Seq<JsonModel>,
    bi: Seq<JsonModel>,
    i: int,
) -> Seq<PatchOpModel>
    decreases ai, ai.len() + bi.len() - i,
{
    if i < 0 || i >= ai.len() || i >= bi.len() {
        Seq::empty()
    } else {
        diff_model(index_path(path, i), ai[i], bi[i]) + arr_changes(path, ai, bi, i + 1)
    }
}

/// The removals that shorten an array from `la` elements to `lb`, last
/// element first.
pub open spec fn arr_removes(path: Seq<char>, la: int, lb: int) -> Seq<PatchOpModel>
    decreases la - lb,
{
    if la <= lb || la <= 0 {
        Seq::empty()
    } else {
        seq![
            PatchOpModel { op: PatchKind::Remove, path: index_path(path, la - 1), value: Option::None },
        ] + arr_removes(path, la - 1, lb)
    }
}

/// The additions of the elements of `b` past the end of `a`, from element
/// `i` on, in order.
pub open spec fn arr_adds(path: Seq<char>, bi: Seq<JsonModel>, i: int) -> Seq<PatchOpModel>
    decreases bi.len() - i,
{
    if i < 0 || i >= bi.len() {
        Seq::empty()
    } else {
        seq![
            PatchOpModel {
                op: PatchKind::Add,
                path: index_path(path, i),
                value: Option::Some(bi[i]),
            },
        ] + arr_adds(path, bi, i + 1)
    }
}

/// The difference between `a` and `b`, addressed below `path`.
pub open spec fn diff_model(path: Seq<char>, a: JsonModel, b: JsonModel) -> Seq<PatchOpModel>
    decreases a, 0int,
{
    if a == b {
        Seq::empty()
    } else if a is Obj && b is Obj {
        obj_diff(path, a->Obj_0, b->Obj_0, 0) + obj_adds(path, a->Obj_0, b->Obj_0, 0)
    } else if a is Arr && b is Arr {
        arr_changes(path, a->Arr_0, b->Arr_0, 0) + arr_removes(
            path,
            a->Arr_0.len() as int,
            b->Arr_0.len() as int,
        ) + arr_adds(path, b->Arr_0, a->Arr_0.len() as int)
    } else {
        seq![PatchOpModel { op: PatchKind::Replace, path: path, value: Option::Some(b) }]
    }
}

/// Equal documents always diff to the empty patch.
pub proof fn lemma_diff_self(path: Seq<char>, x: JsonModel)
    ensures
        diff_model(path, x, x) =~= Seq::<PatchOpModel>::empty(),
{
}

/// Relies on `String::push`: appends one character to the string.
#[verifier::external_body]
pub(crate) fn push_char(s: &mut String, c: char)
    ensures
        final(s)@ == old(s)@ + seq![c],
{
    s.push(c);
}

/// Appends the escaped form of `key` to `out`.
fn escape_append(out: &mut String, key: &String)
    ensures
        final(out)@ == old(out)@ + escape_key(key@),
{
    let n = key.as_str().unicode_len();
    let mut i: usize = 0;
    proof {
        assert(key@.subrange(0, 0) =~= Seq::<char>::empty());
        assert(escape_key(key@.subrange(0, 0)) =~= Seq::<char>::empty());
        assert(out@ =~= out@ + escape_key(key@.subrange(0, 0)));
    }
    while i < n
        invariant
            i <= n,
            n == key@.len(),
            out@ == old(out)@ + escape_key(key@.subrange(0, i as int)),
        decreases n - i,
    {
        let c = key.as_str().get_char(i);
        proof {
            let pre = key@.subrange(0, i as int);
            let post = key@.subrange(0, i + 1 as int);
            assert(post.drop_last() =~= pre);
            assert(post.last() == key@[i as int]);
        }
        if c == '~' {
            push_char(out, '~');
            push_char(out, '0');
        } else if c == '/' {
            push_char(out, '~');
            push_char(out, '1');
        } else {
            push_char(out, c);
        }
        proof {
            assert(out@ =~= old(out)@ + escape_key(key@.subrange(0, i + 1 as int)));
        }
        i += 1;
    }
    proof {
        assert(key@.subrange(0, n as int) =~= key@);
    }
}

/// Builds the path of the member `key` of the object at `path`.
fn make_child_path(path: &String, key: &String) -> (r: String)
    ensures
        r@ == child_path(path@, key@),
{
    let mut r = path.clone();
    push_char(&mut r, '/');
    escape_append(&mut r, key);
    proof {
        assert(r@ =~= child_path(path@, key@));
    }
    r
}

/// Appends the decimal digits of `n`, most significant first.
fn push_decimal(out: &mut String, n: usize)
    ensures
        final(out)@ == old(out)@ + dec_digits(n as nat),
    decreases n,
{
    if n >= 10 {
        proof {
            assert(n / 10 < n) by (nonlinear_arith)
                requires
                    n >= 10,
            ;
        }
        push_decimal(out, n / 10);
    }
    let d = (n % 10) as u8 + 48;
    push_char(out, d as char);
    proof {
        assert(out@ =~= old(out)@ + dec_digits(n as nat));
    }
}

/// Builds the path of the element at `i` of the array at `path`.
fn make_index_path(path: &String, i: usize) -> (r: String)
    ensures
        r@ == index_path(path@, i as int),
{
    let mut r = path.clone();
    push_char(&mut r, '/');
    push_decimal(&mut r, i);
    proof {
        assert(r@ =~= index_path(path@, i as int));
    }
    r
}

/// The member of `entries` named `key`, if any, scanning in member order.
fn find_entry<'a>(entries: &'a Vec<(String, JsonValue)>, key: &String) -> (r: Option<&'a JsonValue>)
    ensures
        match r {
            Option::Some(v) => find_key(obj_view(*entries), key@) == Option::Some(v@),
            Option::None => find_key(obj_view(*entries), key@) is None,
        },
{
    let ghost ev = obj_view(*entries);
    let n = entries.len();
    let mut i: usize = 0;
    proof {
        assert(ev.subrange(0, ev.len() as int) =~= ev);
    }
    while i < n
        invariant
            i <= n,
            n == ev.len(),
            ev == obj_view(*entries),
            find_key(ev.subrange(i as int, ev.len() as int), key@) == find_key(ev, key@),
        decreases n - i,
    {
        let ghost rest = ev.subrange(i as int, ev.len() as int);
        if entries[i].0 == *key {
            proof {
                assert(rest[0] == ev[i as int]);
                assert(find_key(rest, key@) == Option::Some(ev[i as int].1));
            }
            return Option::Some(&entries[i].1);
        }
        proof {
            assert(rest[0] == ev[i as int]);
            assert(rest.subrange(1, rest.len() as int) =~= ev.subrange(
                i + 1 as int,
                ev.len() as int,
            ));
        }
        i += 1;
    }
    proof {
        assert(ev.subrange(n as int, ev.len() as int) =~= Seq::<(Seq<char>, JsonModel)>::empty());
    }
    Option::None
}

/// Appends the removals that shorten the array at `path` from `la`
/// elements to `lb`, last element first.
fn emit_removes(path: &String, la: usize, lb: usize, out: &mut Vec<PatchOp>)
    ensures
        ops_model(final(out)@) == ops_model(old(out)@) + arr_removes(path@, la as int, lb as int),
    decreases la,
{
    if la > lb {
        let cp = make_index_path(path, la - 1);
        let op = PatchOp { op: PatchKind::Remove, path: cp, value: Option::None };
        out.push(op);
        let ghost here = seq![
            PatchOpModel {
                op: PatchKind::Remove,
                path: index_path(path@, la - 1),
                value: Option::None,
            },
        ];
        proof {
            assert(ops_model(out@) =~= ops_model(old(out)@) + here);
        }
        emit_removes(path, la - 1, lb, out);
        proof {
            assert(arr_removes(path@, la as int, lb as int) == here + arr_removes(
                path@,
                la - 1 as int,
                lb as int,
            ));
            assert(ops_model(old(out)@) + here + arr_removes(path@, la - 1 as int, lb as int)
                =~= ops_model(old(out)@) + (here + arr_removes(path@, la - 1 as int, lb as int)));
        }
    } else {
        proof {
            assert(ops_model(out@) =~= ops_model(out@) + arr_removes(
                path@,
                la as int,
                lb as int,
            ));
        }
    }
}

/// Appends the additions of the elements of `be` from element `i` on, in
/// order.
fn emit_adds(path: &String, be: &Vec<JsonValue>, i: usize, out: &mut Vec<PatchOp>)
    ensures
        ops_model(final(out)@) == ops_model(old(out)@) + arr_adds(path@, arr_view(*be), i as int),
    decreases be@.len() - i,
{
    if i < be.len() {
        let cp = make_index_path(path, i);
        let v = be[i].deep_clone();
        let op = PatchOp { op: PatchKind::Add, path: cp, value: Option::Some(v) };
        out.push(op);
        let ghost here = seq![
            PatchOpModel {
                op: PatchKind::Add,
                path: index_path(path@, i as int),
                value: Option::Some(arr_view(*be)[i as int]),
            },
        ];
        proof {
            assert(arr_view(*be)[i as int] == be@[i as int]@);
            assert(ops_model(out@) =~= ops_model(old(out)@) + here);
        }
        emit_adds(path, be, i + 1, out);
        proof {
            assert(arr_adds(path@, arr_view(*be), i as int) == here + arr_adds(
                path@,
                arr_view(*be),
                i + 1 as int,
            ));
            assert(ops_model(old(out)@) + here + arr_adds(path@, arr_view(*be), i + 1 as int)
                =~= ops_model(old(out)@) + (here + arr_adds(path@, arr_view(*be), i + 1 as int)));
        }
    } else {
        proof {
            assert(ops_model(out@) =~= ops_model(out@) + arr_adds(
                path@,
                arr_view(*be),
                i as int,
            ));
        }
    }
}

/// Appends the element-by-element changes of the common prefix of two
/// arrays, from element `i` on.
fn arr_changes_append(
    path: &String,
    ae: &Vec<JsonValue>,
    be: &Vec<JsonValue>,
    i: usize,
    out: &mut Vec<PatchOp>,
)
    ensures
        ops_model(final(out)@) == ops_model(old(out)@) + arr_changes(
            path@,
            arr_view(*ae),
            arr_view(*be),
            i as int,
        ),
    decreases *ae, ae@.len() + be@.len() - i,
{
    if i >= ae.len() || i >= be.len() {
        proof {
            assert(ops_model(out@) =~= ops_model(out@) + arr_changes(
                path@,
                arr_view(*ae),
                arr_view(*be),
                i as int,
            ));
        }
        return;
    }
    let cp = make_index_path(path, i);
    proof {
        assert(decreases_to!(ae@ => ae@[i as int]));
        assert(decreases_to!(*ae => ae@));
    }
    diff_append(&cp, &ae[i], &be[i], out);
    let ghost here = diff_model(
        index_path(path@, i as int),
        arr_view(*ae)[i as int],
        arr_view(*be)[i as int],
    );
    proof {
        assert(arr_view(*ae)[i as int] == ae@[i as int]@);
        assert(arr_view(*be)[i as int] == be@[i as int]@);
    }
    let ghost mid = ops_model(out@);
    arr_changes_append(path, ae, be, i + 1, out);
    proof {
        assert(arr_changes(path@, arr_view(*ae), arr_view(*be), i as int) == here + arr_changes(
            path@,
            arr_view(*ae),
            arr_view(*be),
            i + 1 as int,
        ));
        assert(ops_model(old(out)@) + here + arr_changes(path@, arr_view(*ae), arr_view(*be), i
            + 1 as int) =~= ops_model(old(out)@) + (here + arr_changes(
            path@,
            arr_view(*ae),
            arr_view(*be),
            i + 1 as int,
        )));
    }
}

/// Appends the difference between `a` and `b`, addressed below `path`.
fn diff_append(path: &String, a: &JsonValue, b: &JsonValue, out: &mut Vec<PatchOp>)
    ensures
        ops_model(final(out)@) == ops_model(old(out)@) + diff_model(path@, a@, b@),
    decreases *a, 0int,
{
    if a.deep_eq(b) {
        proof {
            assert(ops_model(out@) =~= ops_model(out@) + diff_model(path@, a@, b@));
        }
        return;
    }
    match a {
        JsonValue::Obj(ae) => match b {
            JsonValue::Obj(be) => {
                let ghost base = ops_model(out@);
                let ghost av = obj_view(*ae);
                let ghost bv = obj_view(*be);
                let ghost mut acc = Seq::<PatchOpModel>::empty();
                let mut i: usize = 0;
                proof {
                    assert(base + acc =~= base);
                    assert(acc + obj_diff(path@, av, bv, 0) =~= obj_diff(path@, av, bv, 0));
                }
                while i < ae.len()
                    invariant
                        i <= av.len(),
                        av == obj_view(*ae),
                        bv == obj_view(*be),
                        a is Obj && *ae == a->Obj_0,
                        ops_model(out@) == base + acc,
                        obj_diff(path@, av, bv, 0) == acc + obj_diff(path@, av, bv, i as int),
                    decreases av.len() - i,
                {
                    let key = &ae[i].0;
                    let cp = make_child_path(path, key);
                    let ghost step: Seq<PatchOpModel>;
                    match find_entry(be, key) {
                        Option::Some(bval) => {
                            proof {
                                assert(decreases_to!(ae@ => ae@[i as int]));
                                assert(decreases_to!(*ae => ae@));
                                assert(decreases_to!(*a => a->Obj_0));
                                assert(decreases_to!(ae@[i as int] => ae@[i as int].1));
                                assert(decreases_to!(*a => ae@[i as int].1));
                            }
                            diff_append(&cp, &ae[i].1, bval, out);
                            proof {
                                step = diff_model(cp@, av[i as int].1, find_key(bv, av[i as int].0)->Some_0);
                                assert(entry_diff(path@, av[i as int], bv) == step);
                            }
                        },
                        Option::None => {
                            let op = PatchOp { op: PatchKind::Remove, path: cp, value: Option::None };
                            out.push(op);
                            proof {
                                step = seq![
                                    PatchOpModel {
                                        op: PatchKind::Remove,
                                        path: child_path(path@, av[i as int].0),
                                        value: Option::None,
                                    },
                                ];
                                assert(entry_diff(path@, av[i as int], bv) == step);
                                assert(ops_model(out@) =~= base + acc + step);
                            }
                        },
                    }
                    proof {
                        assert(obj_diff(path@, av, bv, i as int) == entry_diff(path@, av[i as int], bv)
                            + obj_diff(path@, av, bv, i + 1 as int));
                        assert(base + acc + step =~= base + (acc + step));
                        assert((acc + step) + obj_diff(path@, av, bv, i + 1 as int) =~= acc + (step
                            + obj_diff(path@, av, bv, i + 1 as int)));
                        acc = acc + step;
                    }
                    i += 1;
                }
                proof {
                    assert(obj_diff(path@, av, bv, av.len() as int) =~= Seq::<PatchOpModel>::empty());
                    assert(acc + Seq::<PatchOpModel>::empty() =~= acc);
                    assert(acc == obj_diff(path@, av, bv, 0));
                }
                let ghost base2 = ops_model(out@);
                let ghost mut acc2 = Seq::<PatchOpModel>::empty();
                let mut j: usize = 0;
                proof {
                    assert(base2 + acc2 =~= base2);
                    assert(acc2 + obj_adds(path@, av, bv, 0) =~= obj_adds(path@, av, bv, 0));
                }
                while j < be.len()
                    invariant
                        j <= bv.len(),
                        av == obj_view(*ae),
                        bv == obj_view(*be),
                        b is Obj && *be == b->Obj_0,
                        ops_model(out@) == base2 + acc2,
                        obj_adds(path@, av, bv, 0) == acc2 + obj_adds(path@, av, bv, j as int),
                    decreases bv.len() - j,
                {
                    let key = &be[j].0;
                    let ghost step: Seq<PatchOpModel>;
                    match find_entry(ae, key) {
                        Option::Some(_) => {
                            proof {
                                step = Seq::empty();
                                assert(ops_model(out@) =~= base2 + (acc2 + step));
                            }
                        },
                        Option::None => {
                            let cp = make_child_path(path, key);
                            let v = be[j].1.deep_clone();
                            let op = PatchOp { op: PatchKind::Add, path: cp, value: Option::Some(v) };
                            out.push(op);
                            proof {
                                step = seq![
                                    PatchOpModel {
                                        op: PatchKind::Add,
                                        path: child_path(path@, bv[j as int].0),
                                        value: Option::Some(bv[j as int].1),
                                    },
                                ];
                                assert(ops_model(out@) =~= base2 + acc2 + step);
                            }
                        },
                    }
                    proof {
                        assert(obj_adds(path@, av, bv, j as int) == step + obj_adds(path@, av, bv, j + 1 as int));
                        assert(base2 + acc2 + step =~= base2 + (acc2 + step));
                        assert((acc2 + step) + obj_adds(path@, av, bv, j + 1 as int) =~= acc2 + (step
                            + obj_adds(path@, av, bv, j + 1 as int)));
                        acc2 = acc2 + step;
                    }
                    j += 1;
                }
                proof {
                    assert(obj_adds(path@, av, bv, bv.len() as int) =~= Seq::<PatchOpModel>::empty());
                    assert(acc2 + Seq::<PatchOpModel>::empty() =~= acc2);
                    assert(acc2 == obj_adds(path@, av, bv, 0));
                    assert(base + obj_diff(path@, av, bv, 0) + obj_adds(path@, av, bv, 0) =~= base + (
                    obj_diff(path@, av, bv, 0) + obj_adds(path@, av, bv, 0)));
                    assert(diff_model(path@, a@, b@) == obj_diff(path@, av, bv, 0) + obj_adds(
                        path@,
                        av,
                        bv,
                        0,
                    ));
                }
            },
            _ => {
                let v = b.deep_clone();
                let op = PatchOp { op: PatchKind::Replace, path: path.clone(), value: Option::Some(v) };
                out.push(op);
                proof {
                    assert(ops_model(out@) =~= ops_model(old(out)@) + diff_model(path@, a@, b@));
                }
            },
        },
        JsonValue::Arr(ae) => match b {
            JsonValue::Arr(be) => {
                let ghost base = ops_model(out@);
                let ghost av = arr_view(*ae);
                let ghost bv = arr_view(*be);
                proof {
                    assert(decreases_to!(*a => a->Arr_0));
                }
                arr_changes_append(path, ae, be, 0, out);
                emit_removes(path, ae.len(), be.len(), out);
                emit_adds(path, be, ae.len(), out);
                proof {
                    let x = arr_changes(path@, av, bv, 0);
                    let y = arr_removes(path@, av.len() as int, bv.len() as int);
                    let z = arr_adds(path@, bv, av.len() as int);
                    assert(base + x + y + z =~= base + (x + y + z));
                    assert(diff_model(path@, a@, b@) == x + y + z);
                }
            },
            _ => {
                let v = b.deep_clone();
                let op = PatchOp { op: PatchKind::Replace, path: path.clone(), value: Option::Some(v) };
                out.push(op);
                proof {
                    assert(ops_model(out@) =~= ops_model(old(out)@) + diff_model(path@, a@, b@));
                }
            },
        },
        _ => {
            let v = b.deep_clone();
            let op = PatchOp { op: PatchKind::Replace, path: path.clone(), value: Option::Some(v) };
            out.push(op);
            proof {
                assert(ops_model(out@) =~= ops_model(old(out)@) + diff_model(path@, a@, b@));
            }
        },
    }
}

/// The patch that turns `original` into `mutated`: a deterministic,
/// path-addressed difference.  Equal documents yield the empty patch.
pub fn diff(original: &JsonValue, mutated: &JsonValue) -> (r: Vec<PatchOp>)
    ensures
        ops_model(r@) == diff_model(Seq::empty(), original@, mutated@),
        original@ == mutated@ ==> r@.len() == 0,
{
    let mut out: Vec<PatchOp> = Vec::new();
    let root = String::new();
    diff_append(&root, original, mutated, &mut out);
    proof {
        assert(ops_model(out@) =~= diff_model(Seq::empty(), original@, mutated@));
        if original@ == mutated@ {
            lemma_diff_self(Seq::empty(), original@);
        }
    }
    out
}

} // verus!
