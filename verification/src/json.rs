//! A closed model of the JSON values that protocol messages carry.
//!
//! Request ids, parameters and results are structured JSON values: scalars
//! (null, booleans, integers, strings), arrays, and objects mapping string
//! keys to values.  Objects are held as field lists; a well-formed value
//! never repeats a key inside one object, and object equality ignores the
//! order in which fields were inserted, as a map comparison would.

use vstd::prelude::*;

verus! {

/// Mathematical model of a JSON value.
///
/// An object is modelled as the sequence of its fields in storage order;
/// [`equiv`] gives the order-insensitive equality that matches map
/// semantics.
pub enum JsonRep {
    Null,
    Bool(bool),
    Int(int),
    Str(Seq<char>),
    Arr(Seq<JsonRep>),
    Obj(Seq<(Seq<char>, JsonRep)>),
}

/// A JSON value: the id, parameter and result payloads of every message.
#[derive(Debug)]
pub enum JsonValue {
    Null,
    Bool(bool),
    Int(i64),
    Str(String),
    Arr(Vec<JsonValue>),
    Obj(Vec<(String, JsonValue)>),
}

/// The model of an executable JSON value.
pub open spec fn rep(v: JsonValue) -> JsonRep
    decreases v,
{
    match v {
        JsonValue::Null => JsonRep::Null,
        JsonValue::Bool(b) => JsonRep::Bool(b),
        JsonValue::Int(i) => JsonRep::Int(i as int),
        JsonValue::Str(s) => JsonRep::Str(s@),
        JsonValue::Arr(xs) => JsonRep::Arr(rep_list(xs@)),
        JsonValue::Obj(fs) => JsonRep::Obj(rep_fields(fs@)),
    }
}

/// The models of the elements of an array.
pub open spec fn rep_list(xs: Seq<JsonValue>) -> Seq<JsonRep>
    decreases xs,
{
    if xs.len() == 0 {
        Seq::empty()
    } else {
        rep_list(xs.subrange(0, xs.len() - 1)).push(rep(xs[xs.len() - 1]))
    }
}

/// The models of the fields of an object.
pub open spec fn rep_fields(fs: Seq<(String, JsonValue)>) -> Seq<(Seq<char>, JsonRep)>
    decreases fs,
{
    if fs.len() == 0 {
        Seq::empty()
    } else {
        rep_fields(fs.subrange(0, fs.len() - 1)).push(
            (fs[fs.len() - 1].0@, rep(fs[fs.len() - 1].1)),
        )
    }
}

pub broadcast proof fn lemma_rep_list_index(xs: Seq<JsonValue>)
    ensures
        (#[trigger] rep_list(xs)).len() == xs.len(),
        forall|i: int| 0 <= i < xs.len() ==> #[trigger] rep_list(xs)[i] == rep(xs[i]),
    decreases xs,
{
    if xs.len() > 0 {
        lemma_rep_list_index(xs.subrange(0, xs.len() - 1));
    }
}

pub broadcast proof fn lemma_rep_fields_index(fs: Seq<(String, JsonValue)>)
    ensures
        (#[trigger] rep_fields(fs)).len() == fs.len(),
        forall|i: int|
            0 <= i < fs.len() ==> #[trigger] rep_fields(fs)[i] == (fs[i].0@, rep(fs[i].1)),
    decreases fs,
{
    if fs.len() > 0 {
        lemma_rep_fields_index(fs.subrange(0, fs.len() - 1));
    }
}

impl View for JsonValue {
    type V = JsonRep;

    open spec fn view(&self) -> JsonRep {
        rep(*self)
    }
}

/// Well-formedness: no object repeats a key, at any depth.
pub open spec fn rep_wf(r: JsonRep) -> bool
    decreases r,
{
    match r {
        JsonRep::Null => true,
        JsonRep::Bool(_) => true,
        JsonRep::Int(_) => true,
        JsonRep::Str(_) => true,
        JsonRep::Arr(xs) => rep_wf_list(xs),
        JsonRep::Obj(fs) => keys_distinct(fs) && rep_wf_fields(fs),
    }
}

pub open spec fn rep_wf_list(xs: Seq<JsonRep>) -> bool
    decreases xs,
{
    xs.len() == 0 || (rep_wf_list(xs.subrange(0, xs.len() - 1)) && rep_wf(xs[xs.len() - 1]))
}

pub open spec fn rep_wf_fields(fs: Seq<(Seq<char>, JsonRep)>) -> bool
    decreases fs,
{
    fs.len() == 0 || (rep_wf_fields(fs.subrange(0, fs.len() - 1)) && rep_wf(
        fs[fs.len() - 1].1,
    ))
}

/// No two fields of one object share a key.
pub open spec fn keys_distinct(fs: Seq<(Seq<char>, JsonRep)>) -> bool {
    forall|i: int, j: int|
        0 <= i < fs.len() && 0 <= j < fs.len() && i != j ==> (#[trigger] fs[i].0) != (
        #[trigger] fs[j].0)
}

pub broadcast proof fn lemma_rep_wf_list_index(xs: Seq<JsonRep>)
    requires
        #[trigger] rep_wf_list(xs),
    ensures
        forall|i: int| 0 <= i < xs.len() ==> rep_wf(#[trigger] xs[i]),
    decreases xs,
{
    if xs.len() > 0 {
        lemma_rep_wf_list_index(xs.subrange(0, xs.len() - 1));
        assert forall|i: int| 0 <= i < xs.len() implies rep_wf(#[trigger] xs[i]) by {
            if i < xs.len() - 1 {
                assert(xs[i] == xs.subrange(0, xs.len() - 1)[i]);
            }
        }
    }
}

pub broadcast proof fn lemma_rep_wf_fields_index(fs: Seq<(Seq<char>, JsonRep)>)
    requires
        #[trigger] rep_wf_fields(fs),
    ensures
        forall|i: int| 0 <= i < fs.len() ==> rep_wf(#[trigger] fs[i].1),
    decreases fs,
{
    if fs.len() > 0 {
        lemma_rep_wf_fields_index(fs.subrange(0, fs.len() - 1));
        assert forall|i: int| 0 <= i < fs.len() implies rep_wf(#[trigger] fs[i].1) by {
            if i < fs.len() - 1 {
                assert(fs[i] == fs.subrange(0, fs.len() - 1)[i]);
            }
        }
    }
}

impl JsonValue {
    /// Well-formedness of an executable value, at the model level.
    pub open spec fn wf(&self) -> bool {
        rep_wf(self@)
    }
}

/// The value stored under `key`, scanning fields front to back.
pub open spec fn field_of(fs: Seq<(Seq<char>, JsonRep)>, key: Seq<char>) -> Option<JsonRep>
    decreases fs,
{
    if fs.len() == 0 {
        Option::None
    } else if fs[0].0 == key {
        Option::Some(fs[0].1)
    } else {
        field_of(fs.subrange(1, fs.len() as int), key)
    }
}

/// If no field among the first `i` carries `key`, the scan may start at `i`.
pub proof fn lemma_field_of_skip(fs: Seq<(Seq<char>, JsonRep)>, key: Seq<char>, i: int)
    requires
        0 <= i <= fs.len(),
        forall|j: int| 0 <= j < i ==> (#[trigger] fs[j].0) != key,
    ensures
        field_of(fs, key) == field_of(fs.subrange(i, fs.len() as int), key),
    decreases i,
{
    if i > 0 {
        assert(fs[0].0 != key);
        assert(field_of(fs, key) == field_of(fs.subrange(1, fs.len() as int), key));
        let tail = fs.subrange(1, fs.len() as int);
        lemma_field_of_skip(tail, key, i - 1);
        assert(tail.subrange(i - 1, tail.len() as int) =~= fs.subrange(i, fs.len() as int));
    } else {
        assert(fs.subrange(0, fs.len() as int) =~= fs);
    }
}

/// Order-insensitive equality of JSON values: scalars and arrays compare
/// structurally, objects compare as maps from keys to values.
///
/// [`lemma_equiv_reflexive`] shows that it relates every well-formed
/// value to itself, however its object fields are ordered.
pub open spec fn equiv(a: JsonRep, b: JsonRep) -> bool
    decreases a,
{
    match (a, b) {
        (JsonRep::Null, JsonRep::Null) => true,
        (JsonRep::Bool(x), JsonRep::Bool(y)) => x == y,
        (JsonRep::Int(x), JsonRep::Int(y)) => x == y,
        (JsonRep::Str(x), JsonRep::Str(y)) => x == y,
        (JsonRep::Arr(xs), JsonRep::Arr(ys)) => xs.len() == ys.len() && (forall|i: int|
            0 <= i < xs.len() ==> equiv(#[trigger] xs[i], ys[i])),
        (JsonRep::Obj(fs), JsonRep::Obj(gs)) => fs.len() == gs.len() && (forall|i: int|
            0 <= i < fs.len() ==> match field_of(gs, (#[trigger] fs[i]).0) {
                Option::Some(w) => equiv(fs[i].1, w),
                Option::None => false,
            }),
        _ => false,
    }
}


/// Under distinct keys, looking a field's own key up finds that field.
pub proof fn lemma_field_of_own_key(fs: Seq<(Seq<char>, JsonRep)>, i: int)
    requires
        keys_distinct(fs),
        0 <= i < fs.len(),
    ensures
        field_of(fs, fs[i].0) == Option::Some(fs[i].1),
{
    lemma_field_of_skip(fs, fs[i].0, i);
    let tail = fs.subrange(i, fs.len() as int);
    assert(tail[0] == fs[i]);
}

/// Every well-formed value is equivalent to itself.
pub proof fn lemma_equiv_reflexive(a: JsonRep)
    requires
        rep_wf(a),
    ensures
        equiv(a, a),
    decreases a,
{
    match a {
        JsonRep::Arr(xs) => {
            lemma_rep_wf_list_index(xs);
            assert forall|i: int| 0 <= i < xs.len() implies equiv(#[trigger] xs[i], xs[i]) by {
                lemma_equiv_reflexive(xs[i]);
            }
        },
        JsonRep::Obj(fs) => {
            lemma_rep_wf_fields_index(fs);
            assert forall|i: int| 0 <= i < fs.len() implies match field_of(
                fs,
                (#[trigger] fs[i]).0,
            ) {
                Option::Some(w) => equiv(fs[i].1, w),
                Option::None => false,
            } by {
                lemma_field_of_own_key(fs, i);
                lemma_equiv_reflexive(fs[i].1);
            }
        },
        _ => {},
    }
}

/// True exactly when the two slices hold the same characters.
pub fn str_eq(a: &str, b: &str) -> (r: bool)
    ensures
        r == (a@ == b@),
{
    let sa = String::from_str(a);
    let sb = String::from_str(b);
    sa == sb
}

/// Index of the first field carrying `key`, together with what [`field_of`]
/// says about the scan.
fn obj_lookup(fs: &Vec<(String, JsonValue)>, key: &String) -> (r: Option<usize>)
    ensures
        match r {
            Option::Some(i) => i < fs@.len() && fs@[i as int].0@ == key@ && field_of(
                rep_fields(fs@),
                key@,
            ) == Option::Some(rep(fs@[i as int].1)),
            Option::None => field_of(rep_fields(fs@), key@) is None,
        },
{
    proof {
        lemma_rep_fields_index(fs@);
    }
    let mut i: usize = 0;
    while i < fs.len()
        invariant
            0 <= i <= fs@.len(),
            rep_fields(fs@).len() == fs@.len(),
            forall|j: int|
                0 <= j < fs@.len() ==> #[trigger] rep_fields(fs@)[j] == (
                fs@[j].0@,
                rep(fs@[j].1),
                ),
            forall|j: int| 0 <= j < i ==> (#[trigger] rep_fields(fs@)[j]).0 != key@,
        decreases fs@.len() - i,
    {
        let hit = str_eq(fs[i].0.as_str(), key.as_str());
        proof {
            assert(rep_fields(fs@)[i as int] == (fs@[i as int].0@, rep(fs@[i as int].1)));
        }
        if hit {
            proof {
                let frep = rep_fields(fs@);
                lemma_field_of_skip(frep, key@, i as int);
                assert(frep.subrange(i as int, frep.len() as int)[0] == frep[i as int]);
            }
            return Option::Some(i);
        }
        i += 1;
    }
    proof {
        lemma_field_of_skip(rep_fields(fs@), key@, fs@.len() as int);
    }
    Option::None
}

/// Decides [`equiv`] on well-formed values: structural equality with
/// order-insensitive objects.
pub fn json_eq(a: &JsonValue, b: &JsonValue) -> (r: bool)
    requires
        a.wf(),
        b.wf(),
    ensures
        r == equiv(a@, b@),
    decreases *a,
{
    match (a, b) {
        (JsonValue::Null, JsonValue::Null) => true,
        (JsonValue::Bool(x), JsonValue::Bool(y)) => {
            proof {
                assert(a@ == JsonRep::Bool(*x) && b@ == JsonRep::Bool(*y));
            }
            *x == *y
        },
        (JsonValue::Int(x), JsonValue::Int(y)) => {
            proof {
                assert(a@ == JsonRep::Int(*x as int) && b@ == JsonRep::Int(*y as int));
            }
            *x == *y
        },
        (JsonValue::Str(x), JsonValue::Str(y)) => {
            proof {
                assert(a@ == JsonRep::Str(x@) && b@ == JsonRep::Str(y@));
            }
            str_eq(x.as_str(), y.as_str())
        },
        (JsonValue::Arr(xs), JsonValue::Arr(ys)) => {
            proof {
                lemma_rep_list_index(xs@);
                lemma_rep_list_index(ys@);
                lemma_rep_wf_list_index(rep_list(xs@));
                lemma_rep_wf_list_index(rep_list(ys@));
            }
            if xs.len() != ys.len() {
                return false;
            }
            let mut i: usize = 0;
            while i < xs.len()
                invariant
                    0 <= i <= xs@.len(),
                    xs@.len() == ys@.len(),
                    a.wf(),
                    b.wf(),
                    *a == JsonValue::Arr(*xs),
                    *b == JsonValue::Arr(*ys),
                    rep_list(xs@).len() == xs@.len(),
                    rep_list(ys@).len() == ys@.len(),
                    forall|j: int|
                        0 <= j < xs@.len() ==> #[trigger] rep_list(xs@)[j] == rep(xs@[j]),
                    forall|j: int|
                        0 <= j < ys@.len() ==> #[trigger] rep_list(ys@)[j] == rep(ys@[j]),
                    forall|j: int| 0 <= j < xs@.len() ==> rep_wf(#[trigger] rep_list(xs@)[j]),
                    forall|j: int| 0 <= j < ys@.len() ==> rep_wf(#[trigger] rep_list(ys@)[j]),
                    forall|j: int|
                        0 <= j < i ==> equiv(#[trigger] rep_list(xs@)[j], rep_list(ys@)[j]),
                decreases xs@.len() - i,
            {
                proof {
                    assert(rep_list(xs@)[i as int] == rep(xs@[i as int]));
                    assert(rep_list(ys@)[i as int] == rep(ys@[i as int]));
                }
                if !json_eq(&xs[i], &ys[i]) {
                    proof {
                        assert(!equiv(rep_list(xs@)[i as int], rep_list(ys@)[i as int]));
                    }
                    return false;
                }
                i += 1;
            }
            proof {
                assert(equiv(a@, b@));
            }
            true
        },
        (JsonValue::Obj(fs), JsonValue::Obj(gs)) => {
            proof {
                lemma_rep_fields_index(fs@);
                lemma_rep_fields_index(gs@);
                lemma_rep_wf_fields_index(rep_fields(fs@));
                lemma_rep_wf_fields_index(rep_fields(gs@));
            }
            if fs.len() != gs.len() {
                return false;
            }
            let mut i: usize = 0;
            while i < fs.len()
                invariant
                    0 <= i <= fs@.len(),
                    fs@.len() == gs@.len(),
                    a.wf(),
                    b.wf(),
                    *a == JsonValue::Obj(*fs),
                    *b == JsonValue::Obj(*gs),
                    rep_fields(fs@).len() == fs@.len(),
                    rep_fields(gs@).len() == gs@.len(),
                    forall|j: int|
                        0 <= j < fs@.len() ==> #[trigger] rep_fields(fs@)[j] == (
                        fs@[j].0@,
                        rep(fs@[j].1),
                        ),
                    forall|j: int|
                        0 <= j < gs@.len() ==> #[trigger] rep_fields(gs@)[j] == (
                        gs@[j].0@,
                        rep(gs@[j].1),
                        ),
                    forall|j: int| 0 <= j < fs@.len() ==> rep_wf(#[trigger] rep_fields(fs@)[j].1),
                    forall|j: int| 0 <= j < gs@.len() ==> rep_wf(#[trigger] rep_fields(gs@)[j].1),
                    forall|j: int|
                        0 <= j < i ==> match field_of(
                            rep_fields(gs@),
                            (#[trigger] rep_fields(fs@)[j]).0,
                        ) {
                            Option::Some(w) => equiv(rep_fields(fs@)[j].1, w),
                            Option::None => false,
                        },
                decreases fs@.len() - i,
            {
                proof {
                    assert(rep_fields(fs@)[i as int] == (fs@[i as int].0@, rep(fs@[i as int].1)));
                    assert(rep_wf(rep_fields(fs@)[i as int].1));
                }
                match obj_lookup(gs, &fs[i].0) {
                    Option::Some(k) => {
                        proof {
                            assert(rep_fields(gs@)[k as int] == (
                                gs@[k as int].0@,
                                rep(gs@[k as int].1),
                            ));
                            assert(rep_wf(rep_fields(gs@)[k as int].1));
                        }
                        if !json_eq(&fs[i].1, &gs[k].1) {
                            proof {
                                assert(match field_of(
                                    rep_fields(gs@),
                                    rep_fields(fs@)[i as int].0,
                                ) {
                                    Option::Some(w) => !equiv(rep_fields(fs@)[i as int].1, w),
                                    Option::None => true,
                                });
                            }
                            return false;
                        }
                    },
                    Option::None => {
                        proof {
                            assert(field_of(rep_fields(gs@), rep_fields(fs@)[i as int].0) is None);
                        }
                        return false;
                    },
                }
                i += 1;
            }
            proof {
                assert(equiv(a@, b@));
            }
            true
        },
        _ => {
            proof {
                assert(!equiv(a@, b@));
            }
            false
        },
    }
}

impl Clone for JsonValue {
    /// A deep copy with the same model.
    fn clone(&self) -> (res: Self)
        ensures
            res@ == self@,
        decreases *self,
    {
        match self {
            JsonValue::Null => JsonValue::Null,
            JsonValue::Bool(b) => JsonValue::Bool(*b),
            JsonValue::Int(i) => JsonValue::Int(*i),
            JsonValue::Str(s) => JsonValue::Str(s.clone()),
            JsonValue::Arr(xs) => {
                proof {
                    lemma_rep_list_index(xs@);
                }
                let mut out: Vec<JsonValue> = Vec::new();
                let mut i: usize = 0;
                while i < xs.len()
                    invariant
                        0 <= i <= xs@.len(),
                        *self == JsonValue::Arr(*xs),
                        out@.len() == i,
                        rep_list(xs@).len() == xs@.len(),
                        forall|j: int|
                            0 <= j < xs@.len() ==> #[trigger] rep_list(xs@)[j] == rep(xs@[j]),
                        forall|j: int| 0 <= j < i ==> #[trigger] rep(out@[j]) == rep(xs@[j]),
                    decreases xs@.len() - i,
                {
                    proof {
                        assert(decreases_to!(*self => self->Arr_0));
                        assert(decreases_to!(self->Arr_0 => self->Arr_0@));
                        assert(decreases_to!(self->Arr_0@ => self->Arr_0@[i as int]));
                        assert(decreases_to!(*self => xs@[i as int]));
                    }
                    out.push(xs[i].clone());
                    i += 1;
                }
                proof {
                    lemma_rep_list_index(out@);
                    assert(rep_list(out@) =~= rep_list(xs@));
                }
                JsonValue::Arr(out)
            },
            JsonValue::Obj(fields) => {
                proof {
                    lemma_rep_fields_index(fields@);
                }
                let mut out: Vec<(String, JsonValue)> = Vec::new();
                let mut i: usize = 0;
                while i < fields.len()
                    invariant
                        0 <= i <= fields@.len(),
                        *self == JsonValue::Obj(*fields),
                        out@.len() == i,
                        rep_fields(fields@).len() == fields@.len(),
                        forall|j: int|
                            0 <= j < fields@.len() ==> #[trigger] rep_fields(fields@)[j] == (
                            fields@[j].0@,
                            rep(fields@[j].1),
                            ),
                        forall|j: int|
                            0 <= j < i ==> #[trigger] out@[j].0@ == fields@[j].0@ && rep(out@[j].1)
                                == rep(fields@[j].1),
                    decreases fields@.len() - i,
                {
                    proof {
                        assert(decreases_to!(*self => self->Obj_0));
                        assert(decreases_to!(self->Obj_0 => self->Obj_0@));
                        assert(decreases_to!(self->Obj_0@ => self->Obj_0@[i as int]));
                        assert(decreases_to!(self->Obj_0@[i as int] => self->Obj_0@[i as int].1));
                        assert(decreases_to!(*self => fields@[i as int].1));
                    }
                    let key = fields[i].0.clone();
                    let val = fields[i].1.clone();
                    out.push((key, val));
                    i += 1;
                }
                proof {
                    lemma_rep_fields_index(out@);
                    assert(rep_fields(out@) =~= rep_fields(fields@));
                }
                JsonValue::Obj(out)
            },
        }
    }
}

impl JsonValue {
    /// The value stored under `key`, when this value is an object that
    /// carries such a field; `None` otherwise.
    pub fn get(&self, key: &str) -> (r: Option<&JsonValue>)
        ensures
            match self@ {
                JsonRep::Obj(fs) => match field_of(fs, key@) {
                    Option::Some(w) => r is Some && r->0@ == w,
                    Option::None => r is None,
                },
                _ => r is None,
            },
    {
        match self {
            JsonValue::Obj(fields) => {
                let owned = String::from_str(key);
                match obj_lookup(fields, &owned) {
                    Option::Some(i) => Option::Some(&fields[i].1),
                    Option::None => Option::None,
                }
            },
            _ => Option::None,
        }
    }
}

/// The empty JSON object.
pub fn obj0() -> (r: JsonValue)
    ensures
        r@ == JsonRep::Obj(Seq::empty()),
        r.wf(),
{
    let r = JsonValue::Obj(Vec::new());
    proof {
        assert(rep_fields(r->Obj_0@) =~= Seq::<(Seq<char>, JsonRep)>::empty());
    }
    r
}

/// The empty JSON array.
pub fn arr0() -> (r: JsonValue)
    ensures
        r@ == JsonRep::Arr(Seq::empty()),
        r.wf(),
{
    let r = JsonValue::Arr(Vec::new());
    proof {
        assert(rep_list(r->Arr_0@) =~= Seq::<JsonRep>::empty());
    }
    r
}

/// A JSON string.
pub fn jstr(s: &str) -> (r: JsonValue)
    ensures
        r@ == JsonRep::Str(s@),
        r.wf(),
{
    JsonValue::Str(String::from_str(s))
}

/// An object of one field.
pub fn obj1(k: &str, v: JsonValue) -> (r: JsonValue)
    requires
        v.wf(),
    ensures
        r@ == JsonRep::Obj(seq![(k@, v@)]),
        r.wf(),
{
    let ghost vrep = v@;
    let mut fields: Vec<(String, JsonValue)> = Vec::new();
    fields.push((String::from_str(k), v));
    let r = JsonValue::Obj(fields);
    proof {
        lemma_rep_fields_index(r->Obj_0@);
        let frep = seq![(k@, vrep)];
        assert(rep_fields(r->Obj_0@) =~= frep);
        assert(frep.subrange(0, 0) =~= Seq::<(Seq<char>, JsonRep)>::empty());
        assert(rep_wf_fields(Seq::<(Seq<char>, JsonRep)>::empty()));
        assert(rep_wf(frep[0].1));
        assert(rep_wf_fields(frep));
    }
    r
}

/// An object of two fields with distinct keys.
pub fn obj2(k1: &str, v1: JsonValue, k2: &str, v2: JsonValue) -> (r: JsonValue)
    requires
        v1.wf(),
        v2.wf(),
        k1@ != k2@,
    ensures
        r@ == JsonRep::Obj(seq![(k1@, v1@), (k2@, v2@)]),
        r.wf(),
{
    let ghost rep1 = v1@;
    let ghost rep2 = v2@;
    let mut fields: Vec<(String, JsonValue)> = Vec::new();
    fields.push((String::from_str(k1), v1));
    fields.push((String::from_str(k2), v2));
    let r = JsonValue::Obj(fields);
    proof {
        lemma_rep_fields_index(r->Obj_0@);
        let frep = seq![(k1@, rep1), (k2@, rep2)];
        assert(rep_fields(r->Obj_0@) =~= frep);
        assert(frep.subrange(0, 0) =~= Seq::<(Seq<char>, JsonRep)>::empty());
        assert(frep.subrange(0, 1).subrange(0, 0) =~= Seq::<(Seq<char>, JsonRep)>::empty());
        assert(rep_wf_fields(Seq::<(Seq<char>, JsonRep)>::empty()));
        assert(frep.subrange(0, 1)[0] == frep[0]);
        assert(rep_wf(frep[0].1) && rep_wf(frep[1].1));
        assert(rep_wf_fields(frep.subrange(0, 1)));
        assert(rep_wf_fields(frep));
        assert(keys_distinct(frep));
    }
    r
}

/// An object of three fields with pairwise distinct keys.
pub fn obj3(k1: &str, v1: JsonValue, k2: &str, v2: JsonValue, k3: &str, v3: JsonValue) -> (r:
    JsonValue)
    requires
        v1.wf(),
        v2.wf(),
        v3.wf(),
        k1@ != k2@,
        k1@ != k3@,
        k2@ != k3@,
    ensures
        r@ == JsonRep::Obj(seq![(k1@, v1@), (k2@, v2@), (k3@, v3@)]),
        r.wf(),
{
    let ghost rep1 = v1@;
    let ghost rep2 = v2@;
    let ghost rep3 = v3@;
    let mut fields: Vec<(String, JsonValue)> = Vec::new();
    fields.push((String::from_str(k1), v1));
    fields.push((String::from_str(k2), v2));
    fields.push((String::from_str(k3), v3));
    let r = JsonValue::Obj(fields);
    proof {
        lemma_rep_fields_index(r->Obj_0@);
        let frep = seq![(k1@, rep1), (k2@, rep2), (k3@, rep3)];
        assert(rep_fields(r->Obj_0@) =~= frep);
        assert(frep.subrange(0, 2).subrange(0, 1) =~= frep.subrange(0, 1));
        assert(frep.subrange(0, 1).subrange(0, 0) =~= Seq::<(Seq<char>, JsonRep)>::empty());
        assert(frep.subrange(0, 0) =~= Seq::<(Seq<char>, JsonRep)>::empty());
        assert(rep_wf_fields(Seq::<(Seq<char>, JsonRep)>::empty()));
        assert(frep.subrange(0, 1)[0] == frep[0]);
        assert(frep.subrange(0, 2)[1] == frep[1]);
        assert(rep_wf(frep[0].1) && rep_wf(frep[1].1) && rep_wf(frep[2].1));
        assert(rep_wf_fields(frep.subrange(0, 1)));
        assert(rep_wf_fields(frep.subrange(0, 2)));
        assert(rep_wf_fields(frep));
        assert(keys_distinct(frep));
    }
    r
}

} // verus!
