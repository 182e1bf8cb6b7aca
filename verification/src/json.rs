//! A loosely-typed JSON document tree owned by the library.
//!
//! The shared settings document, the installation manifest and the
//! diagnostics report are all JSON values; this module gives them an
//! ordered-key tree representation with a mathematical view (`JsonV`)
//! that the contracts of the hook merger and the stores speak of.

use vstd::prelude::*;

use crate::text::str_eq;

verus! {

/// An executable JSON value. Object fields keep their order; a number
/// is carried as the text of its literal, so that documents pass
/// through the library unchanged.
pub enum Json {
    Null,
    Bool(bool),
    Num(String),
    Str(String),
    Arr(Vec<Json>),
    Obj(Vec<(String, Json)>),
}

/// The mathematical model of a JSON value.
#[verifier::ext_equal]
pub enum JsonV {
    Null,
    Bool(bool),
    Num(Seq<char>),
    Str(Seq<char>),
    Arr(Seq<JsonV>),
    Obj(Seq<(Seq<char>, JsonV)>),
}

impl View for Json {
    type V = JsonV;

    open spec fn view(&self) -> JsonV {
        json_view(*self)
    }
}

/// The model of an executable JSON value.
pub open spec fn json_view(j: Json) -> JsonV
    decreases j,
{
    match j {
        Json::Null => JsonV::Null,
        Json::Bool(b) => JsonV::Bool(b),
        Json::Num(s) => JsonV::Num(s@),
        Json::Str(s) => JsonV::Str(s@),
        Json::Arr(v) => JsonV::Arr(
            Seq::new(
                v@.len(),
                |i: int|
                    if 0 <= i < v@.len() {
                        json_view(v@[i])
                    } else {
                        JsonV::Null
                    },
            ),
        ),
        Json::Obj(v) => JsonV::Obj(
            Seq::new(
                v@.len(),
                |i: int|
                    if 0 <= i < v@.len() {
                        (v@[i].0@, json_view(v@[i].1))
                    } else {
                        (Seq::empty(), JsonV::Null)
                    },
            ),
        ),
    }
}

/// The value of the first field named `key`, if any.
pub open spec fn lookup_fields(fields: Seq<(Seq<char>, JsonV)>, key: Seq<char>) -> Option<JsonV>
    decreases fields.len(),
{
    if fields.len() == 0 {
        None
    } else if fields[0].0 == key {
        Some(fields[0].1)
    } else {
        lookup_fields(fields.drop_first(), key)
    }
}

/// The value at `key` of an object; `None` on any other value.
pub open spec fn json_get(j: JsonV, key: Seq<char>) -> Option<JsonV> {
    match j {
        JsonV::Obj(fields) => lookup_fields(fields, key),
        _ => None,
    }
}

/// No two fields share a name.
pub open spec fn fields_unique(fields: Seq<(Seq<char>, JsonV)>) -> bool {
    forall|i: int, k: int| 0 <= i < k < fields.len() ==> fields[i].0 != fields[k].0
}

/// The field sequence after setting `key` to `v`: the first field named
/// `key` is replaced, or the field is appended if the name is absent.
pub open spec fn set_fields(fields: Seq<(Seq<char>, JsonV)>, key: Seq<char>, v: JsonV) -> Seq<
    (Seq<char>, JsonV),
>
    decreases fields.len(),
{
    if fields.len() == 0 {
        seq![(key, v)]
    } else if fields[0].0 == key {
        seq![(fields[0].0, v)] + fields.drop_first()
    } else {
        seq![fields[0]] + set_fields(fields.drop_first(), key, v)
    }
}

/// The field sequence with every field named `key` removed.
pub open spec fn remove_fields(fields: Seq<(Seq<char>, JsonV)>, key: Seq<char>) -> Seq<
    (Seq<char>, JsonV),
> {
    fields.filter(|f: (Seq<char>, JsonV)| f.0 != key)
}

/// The views of a sequence of values, element-wise.
pub open spec fn views_of(s: Seq<Json>) -> Seq<JsonV> {
    Seq::new(s.len(), |n: int| s[n]@)
}

/// The views of a sequence of fields, field-wise.
pub open spec fn field_views(s: Seq<(String, Json)>) -> Seq<(Seq<char>, JsonV)> {
    Seq::new(s.len(), |n: int| (s[n].0@, s[n].1@))
}

/// The view of an array value, spelled out element-wise.
pub broadcast proof fn lemma_arr_view(v: Vec<Json>)
    ensures
        (#[trigger] (Json::Arr(v))@) == JsonV::Arr(views_of(v@)),
{
    assert((Json::Arr(v))@->Arr_0 =~= views_of(v@));
}

/// The view of an object value, spelled out field-wise.
pub broadcast proof fn lemma_obj_view(v: Vec<(String, Json)>)
    ensures
        (#[trigger] (Json::Obj(v))@) == JsonV::Obj(field_views(v@)),
{
    assert((Json::Obj(v))@->Obj_0 =~= field_views(v@));
}

impl Json {
    /// A deep copy of the value.
    #[verifier::loop_isolation(false)]
    pub fn deep_clone(&self) -> (r: Json)
        ensures
            r@ == self@,
        decreases self,
    {
        match self {
            Json::Null => Json::Null,
            Json::Bool(b) => Json::Bool(*b),
            Json::Num(s) => Json::Num(s.clone()),
            Json::Str(s) => Json::Str(s.clone()),
            Json::Arr(v) => {
                let mut out: Vec<Json> = Vec::new();
                let mut i: usize = 0;
                while i < v.len()
                    invariant
                        0 <= i <= v.len(),
                        out@.len() == i,
                        forall|k: int| 0 <= k < i ==> out@[k]@ == v@[k]@,
                    decreases v.len() - i,
                {
                    out.push(v[i].deep_clone());
                    i = i + 1;
                }
                proof {
                    lemma_arr_view(out);
                    lemma_arr_view(*v);
                    assert(views_of(out@) =~= views_of(v@));
                }
                Json::Arr(out)
            },
            Json::Obj(v) => {
                let mut out: Vec<(String, Json)> = Vec::new();
                let mut i: usize = 0;
                while i < v.len()
                    invariant
                        0 <= i <= v.len(),
                        out@.len() == i,
                        forall|k: int| 0 <= k < i ==> out@[k].0@ == v@[k].0@ && out@[k].1@
                            == v@[k].1@,
                    decreases v.len() - i,
                {
                    let name = v[i].0.clone();
                    let val = v[i].1.deep_clone();
                    out.push((name, val));
                    i = i + 1;
                }
                proof {
                    lemma_obj_view(out);
                    lemma_obj_view(*v);
                    assert(field_views(out@) =~= field_views(v@));
                }
                Json::Obj(out)
            },
        }
    }

    /// Structural equality of two documents.
    #[verifier::loop_isolation(false)]
    pub fn deep_eq(&self, other: &Json) -> (r: bool)
        ensures
            r == (self@ == other@),
        decreases self,
    {
        match self {
            Json::Null => match other {
                Json::Null => true,
                _ => false,
            },
            Json::Bool(a) => match other {
                Json::Bool(b) => a == b,
                _ => false,
            },
            Json::Num(a) => match other {
                Json::Num(b) => str_eq(a.as_str(), b.as_str()),
                _ => false,
            },
            Json::Str(a) => match other {
                Json::Str(b) => str_eq(a.as_str(), b.as_str()),
                _ => false,
            },
            Json::Arr(xs) => match other {
                Json::Arr(ys) => {
                    proof {
                        lemma_arr_view(*xs);
                        lemma_arr_view(*ys);
                    }
                    if xs.len() != ys.len() {
                        proof {
                            assert(views_of(xs@).len() != views_of(ys@).len());
                        }
                        return false;
                    }
                    let mut i: usize = 0;
                    while i < xs.len()
                        invariant
                            0 <= i <= xs@.len(),
                            xs@.len() == ys@.len(),
                            forall|k: int| 0 <= k < i ==> xs@[k]@ == ys@[k]@,
                        decreases xs@.len() - i,
                    {
                        if !xs[i].deep_eq(&ys[i]) {
                            proof {
                                assert(views_of(xs@)[i as int] != views_of(ys@)[i as int]);
                            }
                            return false;
                        }
                        i = i + 1;
                    }
                    proof {
                        assert(views_of(xs@) =~= views_of(ys@));
                    }
                    true
                },
                _ => false,
            },
            Json::Obj(xs) => match other {
                Json::Obj(ys) => {
                    proof {
                        lemma_obj_view(*xs);
                        lemma_obj_view(*ys);
                    }
                    if xs.len() != ys.len() {
                        proof {
                            assert(field_views(xs@).len() != field_views(ys@).len());
                        }
                        return false;
                    }
                    let mut i: usize = 0;
                    while i < xs.len()
                        invariant
                            0 <= i <= xs@.len(),
                            xs@.len() == ys@.len(),
                            forall|k: int| 0 <= k < i ==> xs@[k].0@ == ys@[k].0@ && xs@[k].1@
                                == ys@[k].1@,
                        decreases xs@.len() - i,
                    {
                        if !str_eq(xs[i].0.as_str(), ys[i].0.as_str()) {
                            proof {
                                assert(field_views(xs@)[i as int] != field_views(ys@)[i as int]);
                            }
                            return false;
                        }
                        if !xs[i].1.deep_eq(&ys[i].1) {
                            proof {
                                assert(field_views(xs@)[i as int] != field_views(ys@)[i as int]);
                            }
                            return false;
                        }
                        i = i + 1;
                    }
                    proof {
                        assert(field_views(xs@) =~= field_views(ys@));
                    }
                    true
                },
                _ => false,
            },
        }
    }

    /// The value at `key`, if this is an object with such a field.
    pub fn get<'a>(&'a self, key: &str) -> (r: Option<&'a Json>)
        ensures
            match r {
                Some(v) => json_get(self@, key@) == Some(v@),
                None => json_get(self@, key@) is None,
            },
    {
        match self {
            Json::Obj(fields) => {
                let mut i: usize = 0;
                proof {
                    assert(self@->Obj_0.skip(0) =~= self@->Obj_0);
                }
                while i < fields.len()
                    invariant
                        0 <= i <= fields.len(),
                        forall|k: int| 0 <= k < i ==> fields@[k].0@ != key@,
                        lookup_fields(self@->Obj_0, key@) == lookup_fields(
                            self@->Obj_0.skip(i as int),
                            key@,
                        ),
                        self@ is Obj,
                        self@->Obj_0.len() == fields@.len(),
                        forall|k: int| 0 <= k < fields@.len() ==> self@->Obj_0[k] == (
                        fields@[k].0@,
                        fields@[k].1@,
                        ),
                    decreases fields.len() - i,
                {
                    if str_eq(fields[i].0.as_str(), key) {
                        assert(lookup_fields(self@->Obj_0.skip(i as int), key@) == Some(
                            fields@[i as int].1@,
                        ));
                        return Some(&fields[i].1);
                    }
                    assert(self@->Obj_0.skip(i as int).drop_first() =~= self@->Obj_0.skip(
                        i as int + 1,
                    ));
                    i = i + 1;
                }
                assert(lookup_fields(self@->Obj_0.skip(fields@.len() as int), key@) is None);
                None
            },
            _ => None,
        }
    }

    /// Set `key` to `v` on an object: the first field of that name is
    /// replaced, or a new field is appended. Any other value is left
    /// unchanged.
    #[verifier::loop_isolation(false)]
    pub fn set(&mut self, key: &str, v: Json)
        ensures
            match old(self)@ {
                JsonV::Obj(fields) => final(self)@ == JsonV::Obj(set_fields(fields, key@, v@)),
                _ => final(self)@ == old(self)@,
            },
    {
        match self {
            Json::Obj(fields) => {
                let ghost orig = fields@;
                proof {
                    lemma_obj_view(*fields);
                    assert(old(self)@->Obj_0 =~= field_views(orig));
                }
                let mut i: usize = 0;
                while i < fields.len()
                    invariant
                        0 <= i <= fields@.len(),
                        fields@ == orig,
                        forall|k: int| 0 <= k < i ==> fields@[k].0@ != key@,
                    decreases fields.len() - i,
                {
                    if str_eq(fields[i].0.as_str(), key) {
                        fields[i].1 = v;
                        proof {
                            let pre = field_views(orig);
                            lemma_set_fields_at(pre, key@, v@, i as int);
                            lemma_obj_view(*fields);
                            assert(field_views(fields@) =~= set_fields(pre, key@, v@));
                        }
                        return ;
                    }
                    i = i + 1;
                }
                let key_string = key.to_owned();
                fields.push((key_string, v));
                proof {
                    let pre = field_views(orig);
                    lemma_set_fields_append(pre, key@, v@);
                    lemma_obj_view(*fields);
                    assert(field_views(fields@) =~= set_fields(pre, key@, v@));
                }
            },
            _ => {},
        }
    }

    /// Remove every field named `key` from an object; any other value
    /// is left unchanged.
    #[verifier::rlimit(50)]
    #[verifier::loop_isolation(false)]
    pub fn remove_key(&mut self, key: &str)
        ensures
            match old(self)@ {
                JsonV::Obj(fields) => final(self)@ == JsonV::Obj(remove_fields(fields, key@)),
                _ => final(self)@ == old(self)@,
            },
    {
        match self {
            Json::Obj(fields) => {
                let ghost orig = field_views(fields@);
                let mut out: Vec<(String, Json)> = Vec::new();
                let mut i: usize = 0;
                proof {
                    lemma_obj_view(*fields);
                    assert(old(self)@->Obj_0 =~= orig);
                    reveal_with_fuel(Seq::filter, 1);
                    assert(orig.take(0) =~= Seq::<(Seq<char>, JsonV)>::empty());
                    assert(field_views(out@) =~= remove_fields(orig.take(0), key@));
                }
                while i < fields.len()
                    invariant
                        0 <= i <= fields@.len(),
                        orig.len() == fields@.len(),
                        forall|k: int| 0 <= k < fields@.len() ==> orig[k] == (
                        fields@[k].0@,
                        fields@[k].1@,
                        ),
                        field_views(out@) =~= remove_fields(orig.take(i as int), key@),
                    decreases fields.len() - i,
                {
                    let keep = !str_eq(fields[i].0.as_str(), key);
                    if keep {
                        let name = fields[i].0.clone();
                        let val = fields[i].1.deep_clone();
                        out.push((name, val));
                    }
                    i = i + 1;
                    proof {
                        reveal_with_fuel(Seq::filter, 1);
                        assert(orig.take(i as int).drop_last() =~= orig.take(i - 1));
                        assert(orig.take(i as int).last() == orig[i - 1]);
                        assert(field_views(out@) =~= remove_fields(orig.take(i as int), key@));
                    }
                }
                proof {
                    assert(orig.take(fields@.len() as int) =~= orig);
                    lemma_obj_view(out);
                    assert(field_views(out@) == remove_fields(old(self)@->Obj_0, key@));
                }
                *self = Json::Obj(out);
            },
            _ => {},
        }
    }
}

proof fn lemma_set_fields_at(fields: Seq<(Seq<char>, JsonV)>, key: Seq<char>, v: JsonV, i: int)
    requires
        0 <= i < fields.len(),
        fields[i].0 == key,
        forall|k: int| 0 <= k < i ==> fields[k].0 != key,
    ensures
        set_fields(fields, key, v) =~= fields.update(i, (fields[i].0, v)),
    decreases fields.len(),
{
    if i == 0 {
        assert(set_fields(fields, key, v) == seq![(fields[0].0, v)] + fields.drop_first());
        assert(seq![(fields[0].0, v)] + fields.drop_first() =~= fields.update(0, (fields[0].0, v)));
    } else {
        assert(fields[0].0 != key);
        lemma_set_fields_at(fields.drop_first(), key, v, i - 1);
        assert(set_fields(fields, key, v) == seq![fields[0]] + set_fields(
            fields.drop_first(),
            key,
            v,
        ));
        assert(seq![fields[0]] + fields.drop_first().update(i - 1, (fields[i].0, v))
            =~= fields.update(i, (fields[i].0, v)));
    }
}

proof fn lemma_set_fields_append(fields: Seq<(Seq<char>, JsonV)>, key: Seq<char>, v: JsonV)
    requires
        forall|k: int| 0 <= k < fields.len() ==> fields[k].0 != key,
    ensures
        set_fields(fields, key, v) =~= fields + seq![(key, v)],
    decreases fields.len(),
{
    if fields.len() == 0 {
        assert(set_fields(fields, key, v) =~= seq![(key, v)]);
        assert(fields + seq![(key, v)] =~= seq![(key, v)]);
    } else {
        lemma_set_fields_append(fields.drop_first(), key, v);
        assert(seq![fields[0]] + (fields.drop_first() + seq![(key, v)]) =~= fields + seq![
            (key, v),
        ]);
    }
}

/// Looking a key up after setting it yields the new value.
pub proof fn lemma_lookup_after_set(fields: Seq<(Seq<char>, JsonV)>, key: Seq<char>, v: JsonV)
    ensures
        lookup_fields(set_fields(fields, key, v), key) == Some(v),
    decreases fields.len(),
{
    if fields.len() == 0 {
    } else if fields[0].0 == key {
        assert((seq![(fields[0].0, v)] + fields.drop_first())[0] == (fields[0].0, v));
    } else {
        lemma_lookup_after_set(fields.drop_first(), key, v);
        let s = seq![fields[0]] + set_fields(fields.drop_first(), key, v);
        assert(s[0] == fields[0]);
        assert(s.drop_first() =~= set_fields(fields.drop_first(), key, v));
    }
}

/// Setting the same key to the same value twice is setting it once.
pub proof fn lemma_set_fields_twice(fields: Seq<(Seq<char>, JsonV)>, key: Seq<char>, v: JsonV)
    ensures
        set_fields(set_fields(fields, key, v), key, v) =~= set_fields(fields, key, v),
    decreases fields.len(),
{
    if fields.len() == 0 {
        let s = seq![(key, v)];
        assert(s[0] == (key, v));
        assert(set_fields(s, key, v) == seq![(s[0].0, v)] + s.drop_first());
        assert(seq![(s[0].0, v)] + s.drop_first() =~= s);
    } else if fields[0].0 == key {
        let s = seq![(fields[0].0, v)] + fields.drop_first();
        assert(s[0] == (fields[0].0, v));
        assert(set_fields(s, key, v) == seq![(s[0].0, v)] + s.drop_first());
        assert(seq![(s[0].0, v)] + s.drop_first() =~= s);
    } else {
        lemma_set_fields_twice(fields.drop_first(), key, v);
        let s = seq![fields[0]] + set_fields(fields.drop_first(), key, v);
        assert(s[0] == fields[0]);
        assert(s.drop_first() =~= set_fields(fields.drop_first(), key, v));
        assert(set_fields(s, key, v) == seq![s[0]] + set_fields(s.drop_first(), key, v));
        assert(seq![s[0]] + set_fields(set_fields(fields.drop_first(), key, v), key, v) =~= s);
    }
}

/// The value a lookup yields is some field's value.
pub proof fn lemma_lookup_is_field_value(fields: Seq<(Seq<char>, JsonV)>, t: Seq<char>)
    requires
        lookup_fields(fields, t) is Some,
    ensures
        exists|k: int|
            0 <= k < fields.len() && (#[trigger] fields[k]).0 == t && fields[k].1
                == lookup_fields(fields, t)->0,
    decreases fields.len(),
{
    if fields.len() > 0 {
        if fields[0].0 == t {
            assert(fields[0].0 == t && fields[0].1 == lookup_fields(fields, t)->0);
        } else {
            lemma_lookup_is_field_value(fields.drop_first(), t);
            let k = choose|k: int|
                0 <= k < fields.drop_first().len() && (#[trigger] fields.drop_first()[k]).0 == t
                    && fields.drop_first()[k].1 == lookup_fields(fields.drop_first(), t)->0;
            assert(fields[k + 1].0 == t && fields[k + 1].1 == lookup_fields(fields, t)->0);
        }
    }
}

} // verus!
