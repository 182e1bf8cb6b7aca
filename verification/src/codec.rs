//! Trusted bridge to serde_json: parsing the shared settings document
//! and serializing documents the library builds. The library's own
//! logic works on [`Json`] trees; only the text encoding is entrusted
//! to serde_json.

use vstd::prelude::*;

use crate::json::{Json, JsonV};

verus! {

#[verifier::external_type_specification]
#[verifier::external_body]
pub struct ExValue(serde_json::Value);

/// What serde_json's parser yields on a given text: the document tree,
/// or nothing where the text is not well-formed JSON.
pub uninterp spec fn json_parse(s: Seq<char>) -> Option<JsonV>;

/// The pretty-printed serialization of a document tree.
pub uninterp spec fn json_pretty(j: JsonV) -> Seq<char>;

/// Whether a text is one serde_json's `Number` accepts back: the only
/// node the serializer can refuse.
pub uninterp spec fn num_text_ok(t: Seq<char>) -> bool;

/// A document the codec can serialize: every number node's text is a
/// JSON number. Everything the parser yields, and every document the
/// library builds without number nodes, is printable.
pub open spec fn json_printable(j: JsonV) -> bool
    decreases j,
{
    match j {
        JsonV::Null => true,
        JsonV::Bool(_) => true,
        JsonV::Num(t) => num_text_ok(t),
        JsonV::Str(_) => true,
        JsonV::Arr(xs) => forall|i: int| 0 <= i < xs.len() ==> json_printable(#[trigger] xs[i]),
        JsonV::Obj(fs) => forall|i: int|
            0 <= i < fs.len() ==> json_printable((#[trigger] fs[i]).1),
    }
}

/// Relies on serde_json::Value: each parsed node is carried over one
/// for one; a number keeps the text serde_json prints for it.
#[verifier::external_body]
fn value_to_json(v: &serde_json::Value) -> Json {
    match v {
        serde_json::Value::Null => Json::Null,
        serde_json::Value::Bool(b) => Json::Bool(*b),
        serde_json::Value::Number(n) => Json::Num(n.to_string()),
        serde_json::Value::String(s) => Json::Str(s.clone()),
        serde_json::Value::Array(a) => Json::Arr(a.iter().map(value_to_json).collect()),
        serde_json::Value::Object(m) => Json::Obj(
            m.iter().map(|(k, x)| (k.clone(), value_to_json(x))).collect(),
        ),
    }
}

/// Relies on serde_json::Value: each node is carried back one for one;
/// a number node is rebuilt from its text and fails if that text is
/// not a JSON number.
#[verifier::external_body]
fn json_to_value(j: &Json) -> Option<serde_json::Value> {
    Some(match j {
        Json::Null => serde_json::Value::Null,
        Json::Bool(b) => serde_json::Value::Bool(*b),
        Json::Num(s) => serde_json::Value::Number(serde_json::from_str(s).ok()?),
        Json::Str(s) => serde_json::Value::String(s.clone()),
        Json::Arr(a) => serde_json::Value::Array(
            a.iter().map(json_to_value).collect::<Option<Vec<serde_json::Value>>>()?,
        ),
        Json::Obj(f) => serde_json::Value::Object(
            f.iter().map(|(k, x)| Some((k.clone(), json_to_value(x)?))).collect::<Option<
                serde_json::Map<String, serde_json::Value>,
            >>()?,
        ),
    })
}

/// Relies on serde_json::from_str::<serde_json::Value>: parses a JSON
/// text, or reports nothing where the text is not well-formed; the
/// outcome depends on the text alone.
#[verifier::external_body]
pub(crate) fn parse_json(s: &str) -> (r: Option<Json>)
    ensures
        match r {
            Some(j) => json_parse(s@) == Some(j@) && json_printable(j@),
            None => json_parse(s@) is None,
        },
{
    match serde_json::from_str::<serde_json::Value>(s) {
        Ok(v) => Some(value_to_json(&v)),
        Err(_) => None,
    }
}

/// Relies on serde_json::to_string_pretty: the serialized text depends
/// on the document alone. Serializing a `Value` cannot fail, so the
/// call succeeds exactly when every number node's text converts back
/// to a serde_json `Number`.
#[verifier::external_body]
pub(crate) fn to_pretty(j: &Json) -> (r: Option<String>)
    ensures
        r is Some <==> json_printable(j@),
        j@ matches JsonV::Num(t) ==> (r is Some <==> num_text_ok(t)),
        r matches Some(s) ==> s@ == json_pretty(j@),
{
    json_to_value(j).and_then(|v| serde_json::to_string_pretty(&v).ok())
}

/// Serialize a document known to be printable.
pub(crate) fn to_pretty_checked(j: &Json) -> (r: String)
    requires
        json_printable(j@),
    ensures
        r@ == json_pretty(j@),
{
    match to_pretty(j) {
        Some(s) => s,
        None => unreached(),
    }
}

/// A looked-up field value of a printable object is printable.
pub proof fn lemma_printable_lookup(j: JsonV, key: Seq<char>)
    requires
        json_printable(j),
        crate::json::json_get(j, key) is Some,
    ensures
        json_printable(crate::json::json_get(j, key)->0),
{
    match j {
        JsonV::Obj(fs) => {
            lemma_printable_lookup_fields(fs, key);
        },
        _ => {},
    }
}

proof fn lemma_printable_lookup_fields(fs: Seq<(Seq<char>, JsonV)>, key: Seq<char>)
    requires
        forall|i: int| 0 <= i < fs.len() ==> json_printable((#[trigger] fs[i]).1),
        crate::json::lookup_fields(fs, key) is Some,
    ensures
        json_printable(crate::json::lookup_fields(fs, key)->0),
    decreases fs.len(),
{
    if fs.len() > 0 && fs[0].0 != key {
        assert(forall|i: int|
            0 <= i < fs.drop_first().len() ==> fs.drop_first()[i] == fs[i + 1]);
        lemma_printable_lookup_fields(fs.drop_first(), key);
    }
}

/// Filtering keeps any property the elements all have.
pub proof fn lemma_filter_keeps_all<A>(s: Seq<A>, pred: spec_fn(A) -> bool, p: spec_fn(A) -> bool)
    requires
        forall|i: int| 0 <= i < s.len() ==> p(#[trigger] s[i]),
    ensures
        forall|i: int| 0 <= i < s.filter(pred).len() ==> p(#[trigger] s.filter(pred)[i]),
    decreases s.len(),
{
    reveal_with_fuel(Seq::filter, 1);
    if s.len() > 0 {
        assert(forall|i: int| 0 <= i < s.drop_last().len() ==> s.drop_last()[i] == s[i]);
        lemma_filter_keeps_all(s.drop_last(), pred, p);
        let f = s.filter(pred);
        let fb = s.drop_last().filter(pred);
        if pred(s.last()) {
            assert(forall|i: int| 0 <= i < f.len() - 1 ==> f[i] == fb[i]);
            assert(f.last() == s.last());
        }
    }
}

/// Setting a field to a printable value on a printable object yields
/// a printable object.
pub proof fn lemma_printable_set_fields(fs: Seq<(Seq<char>, JsonV)>, key: Seq<char>, v: JsonV)
    requires
        forall|i: int| 0 <= i < fs.len() ==> json_printable((#[trigger] fs[i]).1),
        json_printable(v),
    ensures
        forall|i: int|
            0 <= i < crate::json::set_fields(fs, key, v).len() ==> json_printable(
                (#[trigger] crate::json::set_fields(fs, key, v)[i]).1,
            ),
    decreases fs.len(),
{
    let out = crate::json::set_fields(fs, key, v);
    if fs.len() == 0 {
        assert(out[0] == (key, v));
    } else if fs[0].0 == key {
        assert(forall|i: int| 1 <= i < out.len() ==> out[i] == fs.drop_first()[i - 1]);
        assert(out[0] == (fs[0].0, v));
        assert(forall|i: int|
            0 <= i < fs.drop_first().len() ==> fs.drop_first()[i] == fs[i + 1]);
    } else {
        assert(forall|i: int|
            0 <= i < fs.drop_first().len() ==> fs.drop_first()[i] == fs[i + 1]);
        lemma_printable_set_fields(fs.drop_first(), key, v);
        assert(out[0] == fs[0]);
        assert(forall|i: int|
            1 <= i < out.len() ==> out[i] == crate::json::set_fields(
                fs.drop_first(),
                key,
                v,
            )[i - 1]);
    }
}

/// A document of strings joined into an array is printable.
pub proof fn lemma_printable_str_arr(xs: Seq<JsonV>)
    requires
        forall|i: int| 0 <= i < xs.len() ==> (#[trigger] xs[i]) is Str,
    ensures
        json_printable(JsonV::Arr(xs)),
{
    assert forall|i: int| 0 <= i < xs.len() implies json_printable(#[trigger] xs[i]) by {
        assert(xs[i] is Str);
    }
}

/// Merging two printable hooks mappings yields a printable mapping.
pub proof fn lemma_printable_merge(e: JsonV, o: JsonV)
    requires
        json_printable(e),
        json_printable(o),
    ensures
        json_printable(crate::hooks::merge_hooks_spec(e, o)),
{
    let pred = |x: JsonV| json_printable(x);
    match e {
        JsonV::Obj(ef) => match o {
            JsonV::Obj(of) => {
                let part1 = crate::hooks::merged_our_fields(of, e);
                let part2 = crate::hooks::extra_fields(ef, o);
                assert forall|k: int| 0 <= k < part1.len() implies json_printable(
                    (#[trigger] part1[k]).1,
                ) by {
                    let t = of[k].0;
                    let ov = of[k].1;
                    assert(json_printable(ov));
                    assert(part1[k].1 == crate::hooks::merged_entry(t, ov, e));
                    match ov {
                        JsonV::Arr(og) => match crate::json::json_get(e, t) {
                            Some(ev) => match ev {
                                JsonV::Arr(eg) => {
                                    lemma_printable_lookup(e, t);
                                    assert(forall|n: int|
                                        0 <= n < eg.len() ==> json_printable(#[trigger] eg[n]));
                                    crate::hooks::lemma_foreign_keeps_printable(eg);
                                    assert(forall|n: int|
                                        0 <= n < og.len() ==> json_printable(#[trigger] og[n]));
                                    let merged = og + crate::hooks::foreign_of(eg);
                                    assert(forall|n: int|
                                        0 <= n < merged.len() ==> json_printable(
                                            #[trigger] merged[n],
                                        ));
                                },
                                _ => {},
                            },
                            None => {},
                        },
                        _ => {},
                    }
                }
                lemma_printable_extra(ef, o);
                let all = part1 + part2;
                assert(forall|k: int|
                    0 <= k < all.len() ==> json_printable((#[trigger] all[k]).1));
            },
            _ => {},
        },
        _ => {},
    }
}

proof fn lemma_printable_extra(ef: Seq<(Seq<char>, JsonV)>, o: JsonV)
    requires
        forall|i: int| 0 <= i < ef.len() ==> json_printable((#[trigger] ef[i]).1),
    ensures
        forall|i: int|
            0 <= i < crate::hooks::extra_fields(ef, o).len() ==> json_printable(
                (#[trigger] crate::hooks::extra_fields(ef, o)[i]).1,
            ),
    decreases ef.len(),
{
    if ef.len() > 0 {
        assert(forall|i: int|
            0 <= i < ef.drop_last().len() ==> ef.drop_last()[i] == ef[i]);
        lemma_printable_extra(ef.drop_last(), o);
        let out = crate::hooks::extra_fields(ef, o);
        let rest = crate::hooks::extra_fields(ef.drop_last(), o);
        if crate::json::json_get(o, ef.last().0) is Some {
        } else {
            assert(forall|i: int| 0 <= i < rest.len() ==> out[i] == rest[i]);
            assert(out.last().1 == crate::hooks::merged_value(ef.last().1));
            lemma_printable_merged_value(ef.last().1);
        }
    }
}

proof fn lemma_printable_merged_value(v: JsonV)
    requires
        json_printable(v),
    ensures
        json_printable(crate::hooks::merged_value(v)),
{
    match v {
        JsonV::Arr(gs) => {
            crate::hooks::lemma_foreign_keeps_printable(gs);
        },
        _ => {},
    }
}

/// Stripping a printable document yields a printable document.
pub proof fn lemma_printable_strip(doc: JsonV)
    requires
        json_printable(doc),
    ensures
        json_printable(crate::hooks::strip_own_spec(doc)),
{
    match doc {
        JsonV::Obj(fs) => {
            lemma_printable_strip_fields(fs);
        },
        _ => {},
    }
}

proof fn lemma_printable_strip_fields(fs: Seq<(Seq<char>, JsonV)>)
    requires
        forall|i: int| 0 <= i < fs.len() ==> json_printable((#[trigger] fs[i]).1),
    ensures
        forall|i: int|
            0 <= i < crate::hooks::strip_fields(fs).len() ==> json_printable(
                (#[trigger] crate::hooks::strip_fields(fs)[i]).1,
            ),
    decreases fs.len(),
{
    if fs.len() > 0 {
        assert(forall|i: int|
            0 <= i < fs.drop_last().len() ==> fs.drop_last()[i] == fs[i]);
        lemma_printable_strip_fields(fs.drop_last());
        let out = crate::hooks::strip_fields(fs);
        let rest = crate::hooks::strip_fields(fs.drop_last());
        let tail = crate::hooks::strip_one(fs.last());
        assert(out == rest + tail);
        lemma_printable_merged_value(fs.last().1);
        assert(forall|i: int| 0 <= i < tail.len() ==> json_printable((#[trigger] tail[i]).1));
    }
}

/// Removing a field from a printable object keeps it printable.
pub proof fn lemma_printable_remove_fields(fs: Seq<(Seq<char>, JsonV)>, key: Seq<char>)
    requires
        forall|i: int| 0 <= i < fs.len() ==> json_printable((#[trigger] fs[i]).1),
    ensures
        forall|i: int|
            0 <= i < crate::json::remove_fields(fs, key).len() ==> json_printable(
                (#[trigger] crate::json::remove_fields(fs, key)[i]).1,
            ),
    decreases fs.len(),
{
    reveal_with_fuel(Seq::filter, 1);
    if fs.len() > 0 {
        assert(forall|i: int|
            0 <= i < fs.drop_last().len() ==> fs.drop_last()[i] == fs[i]);
        lemma_printable_remove_fields(fs.drop_last(), key);
        let out = crate::json::remove_fields(fs, key);
        let rest = crate::json::remove_fields(fs.drop_last(), key);
        if fs.last().0 != key {
            assert(out == rest.push(fs.last()));
            assert(forall|i: int| 0 <= i < rest.len() ==> out[i] == rest[i]);
            assert(out.last() == fs.last());
        } else {
            assert(out == rest);
        }
    }
}

} // verus!
