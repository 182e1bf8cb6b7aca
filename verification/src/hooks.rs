//! The hook merger: the pure logic that merges this tool's canonical
//! hook entries into a shared settings document, preserves every
//! third-party entry, and strips the tool's own entries on uninstall.
//!
//! A hook group belongs to this tool exactly when one of its actions'
//! command strings contains the marker substring naming the tool's
//! notification script.

use vstd::prelude::*;

use crate::json::{
    field_views, fields_unique, json_get, lemma_arr_view, lemma_obj_view, lookup_fields,
    views_of, Json, JsonV,
};
use crate::text::{contains_sub, has_substring};

verus! {

/// The marker substring that identifies this tool's hook commands.
pub open spec fn marker() -> Seq<char> {
    "smart-notify.sh"@
}

/// A hook action is this tool's iff its `command` string contains the
/// marker.
pub open spec fn action_is_own(a: JsonV) -> bool {
    match json_get(a, "command"@) {
        Some(JsonV::Str(cmd)) => has_substring(cmd, marker()),
        _ => false,
    }
}

/// A hook group is this tool's iff any action under its `hooks` key is.
/// A group without a `hooks` array is never this tool's.
pub open spec fn group_is_own(g: JsonV) -> bool {
    match json_get(g, "hooks"@) {
        Some(JsonV::Arr(acts)) => exists|i: int| 0 <= i < acts.len() && action_is_own(acts[i]),
        _ => false,
    }
}

/// A group that is not this tool's.
pub open spec fn is_foreign(g: JsonV) -> bool {
    !group_is_own(g)
}

/// The foreign groups of a sequence, in their original order.
pub open spec fn foreign_of(gs: Seq<JsonV>) -> Seq<JsonV> {
    gs.filter(|g: JsonV| is_foreign(g))
}

/// Whether the given action's command contains the marker.
pub fn action_is_own_exec(a: &Json) -> (r: bool)
    ensures
        r == action_is_own(a@),
{
    match a.get("command") {
        Some(v) => match v {
            Json::Str(cmd) => contains_sub(cmd.as_str(), "smart-notify.sh"),
            _ => false,
        },
        None => false,
    }
}

/// Whether the given hook group belongs to this tool.
#[verifier::loop_isolation(false)]
pub fn group_is_own_exec(g: &Json) -> (r: bool)
    ensures
        r == group_is_own(g@),
{
    match g.get("hooks") {
        Some(v) => match v {
            Json::Arr(acts) => {
                proof {
                    lemma_arr_view(*acts);
                    assert(*v == Json::Arr(*acts));
                    assert(v@ == JsonV::Arr(views_of(acts@)));
                }
                let mut i: usize = 0;
                while i < acts.len()
                    invariant
                        0 <= i <= acts@.len(),
                        forall|k: int| 0 <= k < i ==> !action_is_own(acts@[k]@),
                    decreases acts@.len() - i,
                {
                    if action_is_own_exec(&acts[i]) {
                        proof {
                            let hseq = json_get(g@, "hooks"@)->0->Arr_0;
                            assert(hseq == views_of(acts@));
                            assert(hseq[i as int] == acts@[i as int]@);
                            assert(0 <= i < hseq.len() && action_is_own(hseq[i as int]));
                            assert(group_is_own(g@));
                        }
                        return true;
                    }
                    i = i + 1;
                }
                assert(forall|k: int|
                    0 <= k < views_of(acts@).len() ==> !action_is_own(views_of(acts@)[k]));
                false
            },
            _ => false,
        },
        None => false,
    }
}

/// Deep copies of the foreign groups of `src`, in their original order.
#[verifier::loop_isolation(false)]
fn filter_foreign(src: &Vec<Json>) -> (r: Vec<Json>)
    ensures
        views_of(r@) == foreign_of(views_of(src@)),
{
    let mut out: Vec<Json> = Vec::new();
    let mut i: usize = 0;
    proof {
        reveal_with_fuel(Seq::filter, 1);
        assert(views_of(src@).take(0) =~= Seq::<JsonV>::empty());
        assert(views_of(out@) =~= foreign_of(views_of(src@).take(0)));
    }
    while i < src.len()
        invariant
            0 <= i <= src@.len(),
            views_of(out@) == foreign_of(views_of(src@).take(i as int)),
        decreases src@.len() - i,
    {
        let own = group_is_own_exec(&src[i]);
        if !own {
            out.push(src[i].deep_clone());
        }
        i = i + 1;
        proof {
            reveal_with_fuel(Seq::filter, 1);
            let vs = views_of(src@);
            assert(vs.take(i as int).drop_last() =~= vs.take(i - 1));
            assert(vs.take(i as int).last() == vs[i - 1]);
            assert(vs[i - 1] == src@[i - 1]@);
            assert(foreign_of(vs.take(i as int)) == if is_foreign(vs[i - 1]) {
                foreign_of(vs.take(i - 1)).push(vs[i - 1])
            } else {
                foreign_of(vs.take(i - 1))
            });
            assert(views_of(out@) =~= foreign_of(vs.take(i as int)));
        }
    }
    proof {
        assert(views_of(src@).take(src@.len() as int) =~= views_of(src@));
    }
    out
}

/// Deep copies of all groups of `src`.
#[verifier::loop_isolation(false)]
fn clone_groups(src: &Vec<Json>) -> (r: Vec<Json>)
    ensures
        views_of(r@) == views_of(src@),
{
    let mut out: Vec<Json> = Vec::new();
    let mut i: usize = 0;
    while i < src.len()
        invariant
            0 <= i <= src@.len(),
            out@.len() == i,
            forall|k: int| 0 <= k < i ==> out@[k]@ == src@[k]@,
        decreases src@.len() - i,
    {
        out.push(src[i].deep_clone());
        i = i + 1;
    }
    assert(views_of(out@) =~= views_of(src@));
    out
}

/// The merged value for a hook type that appears in `ours`: this
/// tool's canonical groups first, then the foreign groups that stood
/// in `existing` under the same type, in their original order.
pub open spec fn merged_entry(t: Seq<char>, ov: JsonV, existing: JsonV) -> JsonV {
    match ov {
        JsonV::Arr(og) => match json_get(existing, t) {
            Some(JsonV::Arr(eg)) => JsonV::Arr(og + foreign_of(eg)),
            _ => ov,
        },
        _ => ov,
    }
}

/// The fields of the merge result that come from `ours`, in order.
pub open spec fn merged_our_fields(of: Seq<(Seq<char>, JsonV)>, existing: JsonV) -> Seq<
    (Seq<char>, JsonV),
> {
    Seq::new(of.len(), |i: int| (of[i].0, merged_entry(of[i].0, of[i].1, existing)))
}

/// A hook-type value with this tool's groups removed; any non-array
/// value is kept as it stands.
pub open spec fn merged_value(v: JsonV) -> JsonV {
    match v {
        JsonV::Arr(gs) => JsonV::Arr(foreign_of(gs)),
        _ => v,
    }
}

/// The fields of the merge result for hook types present only in the
/// existing document, in their original order, with this tool's groups
/// removed.
pub open spec fn extra_fields(ef: Seq<(Seq<char>, JsonV)>, ours: JsonV) -> Seq<
    (Seq<char>, JsonV),
>
    decreases ef.len(),
{
    if ef.len() == 0 {
        Seq::empty()
    } else {
        let rest = extra_fields(ef.drop_last(), ours);
        if json_get(ours, ef.last().0) is Some {
            rest
        } else {
            rest + seq![(ef.last().0, merged_value(ef.last().1))]
        }
    }
}

/// The merge of an existing hooks mapping with this tool's canonical
/// one. If either side is not an object the canonical mapping wins.
pub open spec fn merge_hooks_spec(existing: JsonV, ours: JsonV) -> JsonV {
    match existing {
        JsonV::Obj(ef) => match ours {
            JsonV::Obj(of) => JsonV::Obj(
                merged_our_fields(of, existing) + extra_fields(ef, ours),
            ),
            _ => ours,
        },
        _ => ours,
    }
}

/// A hook-type value with this tool's groups removed.
fn stripped_value(v: &Json) -> (r: Json)
    ensures
        r@ == merged_value(v@),
{
    match v {
        Json::Arr(gs) => {
            let foreign = filter_foreign(gs);
            proof {
                lemma_arr_view(foreign);
                lemma_arr_view(*gs);
            }
            Json::Arr(foreign)
        },
        _ => v.deep_clone(),
    }
}

/// Merge an existing hooks mapping with this tool's canonical one.
///
/// The result holds the canonical entries for every hook type in
/// `ours`, with foreign groups from `existing` appended after them in
/// their original order; hook types present only in `existing` follow,
/// keeping their foreign groups. Groups belonging to this tool are
/// dropped from `existing` (the canonical ones replace them).
#[verifier::loop_isolation(false)]
pub fn merge_hooks(existing: &Json, ours: &Json) -> (r: Json)
    ensures
        r@ == merge_hooks_spec(existing@, ours@),
{
    match existing {
        Json::Obj(ef) => match ours {
            Json::Obj(of) => {
                proof {
                    lemma_obj_view(*ef);
                    lemma_obj_view(*of);
                }
                let mut out: Vec<(String, Json)> = Vec::new();
                let mut i: usize = 0;
                proof {
                    assert(field_views(out@) =~= merged_our_fields(
                        field_views(of@).take(0),
                        existing@,
                    ));
                }
                while i < of.len()
                    invariant
                        0 <= i <= of@.len(),
                        field_views(out@) == merged_our_fields(
                            field_views(of@).take(i as int),
                            existing@,
                        ),
                    decreases of@.len() - i,
                {
                    let name = of[i].0.clone();
                    let newval: Json;
                    match &of[i].1 {
                        Json::Arr(og) => {
                            proof {
                                lemma_arr_view(*og);
                            }
                            match existing.get(name.as_str()) {
                                Some(ev) => match ev {
                                    Json::Arr(eg) => {
                                        proof {
                                            lemma_arr_view(*eg);
                                        }
                                        let mut groups = clone_groups(og);
                                        let mut foreign = filter_foreign(eg);
                                        groups.append(&mut foreign);
                                        proof {
                                            lemma_arr_view(groups);
                                            assert(views_of(groups@) =~= views_of(og@)
                                                + foreign_of(views_of(eg@)));
                                        }
                                        newval = Json::Arr(groups);
                                    },
                                    _ => {
                                        newval = of[i].1.deep_clone();
                                    },
                                },
                                None => {
                                    newval = of[i].1.deep_clone();
                                },
                            }
                        },
                        _ => {
                            newval = of[i].1.deep_clone();
                        },
                    }
                    proof {
                        assert(newval@ == merged_entry(
                            field_views(of@)[i as int].0,
                            field_views(of@)[i as int].1,
                            existing@,
                        ));
                    }
                    out.push((name, newval));
                    i = i + 1;
                    proof {
                        let ofv = field_views(of@);
                        assert(ofv.take(i as int)[i - 1] == ofv[i - 1]);
                        assert(forall|n: int|
                            0 <= n < i - 1 ==> ofv.take(i as int)[n] == #[trigger] ofv.take(
                                i - 1,
                            )[n]);
                        assert forall|n: int| 0 <= n < i implies field_views(out@)[n]
                            == merged_our_fields(ofv.take(i as int), existing@)[n] by {
                            if n < i - 1 {
                                assert(field_views(out@)[n] == merged_our_fields(
                                    ofv.take(i - 1),
                                    existing@,
                                )[n]);
                            }
                        }
                        assert(field_views(out@) =~= merged_our_fields(
                            ofv.take(i as int),
                            existing@,
                        ));
                    }
                }
                proof {
                    assert(field_views(of@).take(of@.len() as int) =~= field_views(of@));
                }
                let ghost part1 = field_views(out@);
                let mut j: usize = 0;
                proof {
                    assert(field_views(ef@).take(0) =~= Seq::<(Seq<char>, JsonV)>::empty());
                    assert(field_views(out@) =~= part1 + extra_fields(
                        field_views(ef@).take(0),
                        ours@,
                    ));
                }
                while j < ef.len()
                    invariant
                        0 <= j <= ef@.len(),
                        field_views(out@) == part1 + extra_fields(
                            field_views(ef@).take(j as int),
                            ours@,
                        ),
                    decreases ef@.len() - j,
                {
                    let name = ef[j].0.clone();
                    let absent = match ours.get(name.as_str()) {
                        Some(_) => false,
                        None => true,
                    };
                    if absent {
                        let sv = stripped_value(&ef[j].1);
                        out.push((name, sv));
                    }
                    j = j + 1;
                    proof {
                        let efv = field_views(ef@);
                        assert(efv.take(j as int).drop_last() =~= efv.take(j - 1));
                        assert(efv.take(j as int).last() == efv[j - 1]);
                        assert(name@ == efv[j - 1].0);
                        assert(extra_fields(efv.take(j as int), ours@) == if json_get(
                            ours@,
                            efv[j - 1].0,
                        ) is Some {
                            extra_fields(efv.take(j - 1), ours@)
                        } else {
                            extra_fields(efv.take(j - 1), ours@) + seq![
                                (efv[j - 1].0, merged_value(efv[j - 1].1)),
                            ]
                        });
                        assert(efv[j - 1] == (ef@[j - 1].0@, ef@[j - 1].1@));
                        if absent {
                            assert(field_views(out@) =~= (part1 + extra_fields(
                                efv.take(j - 1),
                                ours@,
                            )).push((efv[j - 1].0, merged_value(efv[j - 1].1))));
                            assert(part1 + extra_fields(efv.take(j as int), ours@) =~= (part1
                                + extra_fields(efv.take(j - 1), ours@)).push(
                                (efv[j - 1].0, merged_value(efv[j - 1].1)),
                            ));
                        }
                        assert(field_views(out@) =~= part1 + extra_fields(
                            efv.take(j as int),
                            ours@,
                        ));
                    }
                }
                proof {
                    assert(field_views(ef@).take(ef@.len() as int) =~= field_views(ef@));
                    lemma_obj_view(out);
                }
                Json::Obj(out)
            },
            _ => ours.deep_clone(),
        },
        _ => ours.deep_clone(),
    }
}

/// The fields of a hooks mapping after removing this tool's groups:
/// a hook type whose groups were all this tool's is dropped, one with
/// no groups at all is kept as it stands.
pub open spec fn strip_one(f: (Seq<char>, JsonV)) -> Seq<(Seq<char>, JsonV)> {
    match f.1 {
        JsonV::Arr(gs) => if foreign_of(gs).len() == 0 && gs.len() > 0 {
            Seq::empty()
        } else {
            seq![(f.0, JsonV::Arr(foreign_of(gs)))]
        },
        _ => seq![f],
    }
}

/// All fields of a hooks mapping after stripping, in order.
pub open spec fn strip_fields(fs: Seq<(Seq<char>, JsonV)>) -> Seq<(Seq<char>, JsonV)>
    decreases fs.len(),
{
    if fs.len() == 0 {
        Seq::empty()
    } else {
        strip_fields(fs.drop_last()) + strip_one(fs.last())
    }
}

/// A hooks mapping with this tool's groups removed; hook types left
/// empty by the removal are dropped. Any non-object value is returned
/// unchanged.
pub open spec fn strip_own_spec(doc: JsonV) -> JsonV {
    match doc {
        JsonV::Obj(fs) => JsonV::Obj(strip_fields(fs)),
        _ => doc,
    }
}

/// Remove this tool's hook groups from a hooks mapping, for uninstall.
/// Foreign groups and unrecognised values pass through unchanged.
#[verifier::loop_isolation(false)]
pub fn strip_own(doc: &Json) -> (r: Json)
    ensures
        r@ == strip_own_spec(doc@),
{
    match doc {
        Json::Obj(fs) => {
            proof {
                lemma_obj_view(*fs);
            }
            let mut out: Vec<(String, Json)> = Vec::new();
            let mut i: usize = 0;
            proof {
                assert(field_views(fs@).take(0) =~= Seq::<(Seq<char>, JsonV)>::empty());
                assert(field_views(out@) =~= strip_fields(field_views(fs@).take(0)));
            }
            while i < fs.len()
                invariant
                    0 <= i <= fs@.len(),
                    field_views(out@) == strip_fields(field_views(fs@).take(i as int)),
                decreases fs@.len() - i,
            {
                let name = fs[i].0.clone();
                match &fs[i].1 {
                    Json::Arr(gs) => {
                        proof {
                            lemma_arr_view(*gs);
                        }
                        let foreign = filter_foreign(gs);
                        if foreign.len() > 0 || gs.len() == 0 {
                            proof {
                                lemma_arr_view(foreign);
                            }
                            out.push((name, Json::Arr(foreign)));
                        }
                    },
                    _ => {
                        out.push((name, fs[i].1.deep_clone()));
                    },
                }
                i = i + 1;
                proof {
                    let fv = field_views(fs@);
                    assert(fv.take(i as int).drop_last() =~= fv.take(i - 1));
                    assert(fv.take(i as int).last() == fv[i - 1]);
                    assert(field_views(out@) =~= strip_fields(fv.take(i as int)));
                }
            }
            proof {
                assert(field_views(fs@).take(fs@.len() as int) =~= field_views(fs@));
                lemma_obj_view(out);
            }
            Json::Obj(out)
        },
        _ => doc.deep_clone(),
    }
}

/// The names of the hook types of a settings document, in order; empty
/// when the document has no `hooks` object.
pub open spec fn hook_type_names(settings: JsonV) -> Seq<Seq<char>> {
    match json_get(settings, "hooks"@) {
        Some(JsonV::Obj(fs)) => Seq::new(fs.len(), |i: int| fs[i].0),
        _ => Seq::empty(),
    }
}

/// List the hook types present in a settings document, whoever owns
/// them; used to report existing hooks before any mutation.
#[verifier::loop_isolation(false)]
pub fn check_existing_hooks(settings: &Json) -> (r: Vec<String>)
    ensures
        r@.len() == hook_type_names(settings@).len(),
        forall|k: int| 0 <= k < r@.len() ==> r@[k]@ == hook_type_names(settings@)[k],
{
    match settings.get("hooks") {
        Some(h) => match h {
            Json::Obj(fs) => {
                proof {
                    lemma_obj_view(*fs);
                }
                let mut out: Vec<String> = Vec::new();
                let mut i: usize = 0;
                while i < fs.len()
                    invariant
                        0 <= i <= fs@.len(),
                        out@.len() == i,
                        forall|k: int| 0 <= k < i ==> out@[k]@ == fs@[k].0@,
                    decreases fs@.len() - i,
                {
                    out.push(fs[i].0.clone());
                    i = i + 1;
                }
                proof {
                    assert(hook_type_names(settings@) =~= Seq::new(
                        fs@.len(),
                        |k: int| fs@[k].0@,
                    ));
                }
                out
            },
            _ => Vec::new(),
        },
        None => Vec::new(),
    }
}

/// Filtering for foreign groups keeps printability.
pub proof fn lemma_foreign_keeps_printable(gs: Seq<JsonV>)
    requires
        forall|i: int| 0 <= i < gs.len() ==> crate::codec::json_printable(#[trigger] gs[i]),
    ensures
        forall|i: int|
            0 <= i < foreign_of(gs).len() ==> crate::codec::json_printable(
                #[trigger] foreign_of(gs)[i],
            ),
{
    crate::codec::lemma_filter_keeps_all(
        gs,
        |g: JsonV| is_foreign(g),
        |g: JsonV| crate::codec::json_printable(g),
    );
}

// ---------------------------------------------------------------------
// Laws of the merger.
// ---------------------------------------------------------------------

/// A well-formed canonical hook set: an object with uniquely named
/// fields, each an array all of whose groups belong to this tool.
pub open spec fn canonical_hooks(o: JsonV) -> bool {
    &&& o is Obj
    &&& fields_unique(o->Obj_0)
    &&& forall|k: int| 0 <= k < o->Obj_0.len() ==> (#[trigger] o->Obj_0[k]).1 is Arr
    &&& forall|k: int, n: int|
        0 <= k < o->Obj_0.len() && 0 <= n < o->Obj_0[k].1->Arr_0.len() ==> group_is_own(
            #[trigger] o->Obj_0[k].1->Arr_0[n],
        )
}

proof fn lemma_filter_all_excluded<A>(s: Seq<A>, pred: spec_fn(A) -> bool)
    requires
        forall|i: int| 0 <= i < s.len() ==> !pred(#[trigger] s[i]),
    ensures
        s.filter(pred) =~= Seq::<A>::empty(),
    decreases s.len(),
{
    reveal_with_fuel(Seq::filter, 1);
    if s.len() > 0 {
        lemma_filter_all_excluded(s.drop_last(), pred);
    }
}

proof fn lemma_filter_all_included<A>(s: Seq<A>, pred: spec_fn(A) -> bool)
    requires
        forall|i: int| 0 <= i < s.len() ==> pred(#[trigger] s[i]),
    ensures
        s.filter(pred) =~= s,
    decreases s.len(),
{
    reveal_with_fuel(Seq::filter, 1);
    if s.len() > 0 {
        lemma_filter_all_included(s.drop_last(), pred);
    }
}

/// Filtering for foreign groups removes everything from an all-own
/// sequence and nothing from an all-foreign one; filtering twice is
/// the same as filtering once.
proof fn lemma_foreign_of_idempotent(gs: Seq<JsonV>)
    ensures
        foreign_of(foreign_of(gs)) =~= foreign_of(gs),
{
    let pred = |g: JsonV| is_foreign(g);
    assert forall|i: int| 0 <= i < foreign_of(gs).len() implies pred(#[trigger] foreign_of(gs)[i]) by {
        gs.lemma_filter_pred(pred, i);
    }
    lemma_filter_all_included(foreign_of(gs), pred);
}

proof fn lemma_merged_value_idempotent(v: JsonV)
    ensures
        merged_value(merged_value(v)) == merged_value(v),
{
    match v {
        JsonV::Arr(gs) => {
            lemma_foreign_of_idempotent(gs);
        },
        _ => {},
    }
}

proof fn lemma_lookup_single(f: (Seq<char>, JsonV), t: Seq<char>)
    ensures
        lookup_fields(seq![f], t) == if f.0 == t {
            Some(f.1)
        } else {
            None
        },
{
    assert(seq![f][0] == f);
    assert(seq![f].drop_first() =~= Seq::<(Seq<char>, JsonV)>::empty());
    assert(lookup_fields(Seq::<(Seq<char>, JsonV)>::empty(), t) is None);
}

/// Looking a name up in a concatenation finds it in the front part
/// first.
proof fn lemma_lookup_concat(
    a: Seq<(Seq<char>, JsonV)>,
    b: Seq<(Seq<char>, JsonV)>,
    t: Seq<char>,
)
    ensures
        lookup_fields(a + b, t) == if lookup_fields(a, t) is Some {
            lookup_fields(a, t)
        } else {
            lookup_fields(b, t)
        },
    decreases a.len(),
{
    if a.len() == 0 {
        assert(a + b =~= b);
    } else {
        lemma_lookup_concat(a.drop_first(), b, t);
        assert((a + b)[0] == a[0]);
        assert((a + b).drop_first() =~= a.drop_first() + b);
        assert(lookup_fields(a + b, t) == if (a + b)[0].0 == t {
            Some((a + b)[0].1)
        } else {
            lookup_fields((a + b).drop_first(), t)
        });
    }
}

/// A name that labels some field is found by lookup.
proof fn lemma_lookup_present(fields: Seq<(Seq<char>, JsonV)>, k: int)
    requires
        0 <= k < fields.len(),
    ensures
        lookup_fields(fields, fields[k].0) is Some,
    decreases fields.len(),
{
    if fields[0].0 == fields[k].0 {
    } else {
        assert(k > 0);
        assert(fields.drop_first()[k - 1] == fields[k]);
        lemma_lookup_present(fields.drop_first(), k - 1);
    }
}

/// With unique names, lookup of the `k`-th name yields the `k`-th
/// value.
proof fn lemma_lookup_unique_at(fields: Seq<(Seq<char>, JsonV)>, k: int)
    requires
        fields_unique(fields),
        0 <= k < fields.len(),
    ensures
        lookup_fields(fields, fields[k].0) == Some(fields[k].1),
    decreases fields.len(),
{
    if k == 0 {
    } else {
        assert(fields[0].0 != fields[k].0);
        assert(fields.drop_first()[k - 1] == fields[k]);
        assert(fields_unique(fields.drop_first())) by {
            assert(forall|x: int, y: int|
                0 <= x < y < fields.drop_first().len() ==> fields.drop_first()[x]
                    == fields[x + 1] && fields.drop_first()[y] == fields[y + 1]);
        }
        lemma_lookup_unique_at(fields.drop_first(), k - 1);
    }
}

/// Lookup in the merged our-part is the merged entry for the looked-up
/// name.
proof fn lemma_lookup_merged_our(of: Seq<(Seq<char>, JsonV)>, existing: JsonV, t: Seq<char>)
    ensures
        lookup_fields(merged_our_fields(of, existing), t) == match lookup_fields(of, t) {
            Some(v) => Some(merged_entry(t, v, existing)),
            None => None,
        },
    decreases of.len(),
{
    let m = merged_our_fields(of, existing);
    if of.len() == 0 {
        assert(m =~= Seq::<(Seq<char>, JsonV)>::empty());
    } else {
        lemma_lookup_merged_our(of.drop_first(), existing, t);
        assert(m[0] == (of[0].0, merged_entry(of[0].0, of[0].1, existing)));
        assert(m.drop_first() =~= merged_our_fields(of.drop_first(), existing));
        assert(lookup_fields(m, t) == if m[0].0 == t {
            Some(m[0].1)
        } else {
            lookup_fields(m.drop_first(), t)
        });
    }
}

/// Every field of the extra part: its name is absent from `ours`, and
/// its value is already stripped.
proof fn lemma_extra_fields_entries(ef: Seq<(Seq<char>, JsonV)>, ours: JsonV, k: int)
    requires
        0 <= k < extra_fields(ef, ours).len(),
    ensures
        json_get(ours, extra_fields(ef, ours)[k].0) is None,
        merged_value(extra_fields(ef, ours)[k].1) == extra_fields(ef, ours)[k].1,
    decreases ef.len(),
{
    if ef.len() == 0 {
    } else {
        let rest = extra_fields(ef.drop_last(), ours);
        if k < rest.len() {
            lemma_extra_fields_entries(ef.drop_last(), ours, k);
        } else {
            assert(json_get(ours, ef.last().0) is None);
            lemma_merged_value_idempotent(ef.last().1);
        }
    }
}

/// Lookup inside the extra part, for a name absent from `ours`.
proof fn lemma_lookup_extra(ef: Seq<(Seq<char>, JsonV)>, ours: JsonV, t: Seq<char>)
    requires
        json_get(ours, t) is None,
    ensures
        lookup_fields(extra_fields(ef, ours), t) == match lookup_fields(ef, t) {
            Some(v) => Some(merged_value(v)),
            None => None,
        },
    decreases ef.len(),
{
    if ef.len() == 0 {
    } else {
        let butlast = ef.drop_last();
        lemma_lookup_extra(butlast, ours, t);
        assert(ef =~= butlast + seq![ef.last()]);
        lemma_lookup_concat(butlast, seq![ef.last()], t);
        let rest = extra_fields(butlast, ours);
        if json_get(ours, ef.last().0) is Some {
            assert(extra_fields(ef, ours) == rest);
            assert(ef.last().0 != t);
            lemma_lookup_single(ef.last(), t);
        } else {
            let tail = seq![(ef.last().0, merged_value(ef.last().1))];
            assert(extra_fields(ef, ours) == rest + tail);
            lemma_lookup_concat(rest, tail, t);
            lemma_lookup_single((ef.last().0, merged_value(ef.last().1)), t);
            lemma_lookup_single(ef.last(), t);
        }
    }
}

proof fn lemma_extra_concat(
    a: Seq<(Seq<char>, JsonV)>,
    b: Seq<(Seq<char>, JsonV)>,
    o: JsonV,
)
    ensures
        extra_fields(a + b, o) == extra_fields(a, o) + extra_fields(b, o),
    decreases b.len(),
{
    if b.len() == 0 {
        assert(a + b =~= a);
        assert(extra_fields(a, o) + extra_fields(b, o) =~= extra_fields(a, o));
    } else {
        lemma_extra_concat(a, b.drop_last(), o);
        assert((a + b).drop_last() =~= a + b.drop_last());
        assert((a + b).last() == b.last());
        if json_get(o, b.last().0) is Some {
            assert(extra_fields(a, o) + extra_fields(b, o) =~= extra_fields(a, o)
                + extra_fields(b.drop_last(), o));
        } else {
            assert(extra_fields(a, o) + extra_fields(b, o) =~= (extra_fields(a, o)
                + extra_fields(b.drop_last(), o)) + seq![
                (b.last().0, merged_value(b.last().1)),
            ]);
        }
    }
}

proof fn lemma_extra_all_present(s: Seq<(Seq<char>, JsonV)>, o: JsonV)
    requires
        forall|k: int| 0 <= k < s.len() ==> json_get(o, (#[trigger] s[k]).0) is Some,
    ensures
        extra_fields(s, o) =~= Seq::<(Seq<char>, JsonV)>::empty(),
    decreases s.len(),
{
    if s.len() > 0 {
        lemma_extra_all_present(s.drop_last(), o);
        assert(s.last() == s[s.len() - 1]);
    }
}

proof fn lemma_extra_all_absent_fixed(s: Seq<(Seq<char>, JsonV)>, o: JsonV)
    requires
        forall|k: int| 0 <= k < s.len() ==> json_get(o, (#[trigger] s[k]).0) is None,
        forall|k: int| 0 <= k < s.len() ==> merged_value((#[trigger] s[k]).1) == s[k].1,
    ensures
        extra_fields(s, o) =~= s,
    decreases s.len(),
{
    if s.len() > 0 {
        lemma_extra_all_absent_fixed(s.drop_last(), o);
        assert(s.last() == s[s.len() - 1]);
        assert(extra_fields(s, o) == extra_fields(s.drop_last(), o) + seq![
            (s.last().0, merged_value(s.last().1)),
        ]);
    }
}

/// Idempotent merge: merging the canonical set into a document that
/// already holds a merge result changes nothing.
pub proof fn lemma_merge_idempotent(d: JsonV, o: JsonV)
    requires
        canonical_hooks(o),
    ensures
        merge_hooks_spec(merge_hooks_spec(d, o), o) == merge_hooks_spec(d, o),
{
    let of = o->Obj_0;
    let pred = |x: JsonV| is_foreign(x);
    match d {
        JsonV::Obj(ef) => {
            let ourpart = merged_our_fields(of, d);
            let extrapart = extra_fields(ef, o);
            let m = merge_hooks_spec(d, o);
            assert(m == JsonV::Obj(ourpart + extrapart));
            assert forall|k: int| 0 <= k < of.len() implies merged_our_fields(of, m)[k]
                == ourpart[k] by {
                let t = of[k].0;
                let ov = of[k].1;
                let og = ov->Arr_0;
                assert(ov is Arr);
                assert(forall|n: int| 0 <= n < og.len() ==> !pred(#[trigger] og[n]));
                lemma_lookup_concat(ourpart, extrapart, t);
                lemma_lookup_merged_our(of, d, t);
                lemma_lookup_unique_at(of, k);
                assert(json_get(m, t) == Some(merged_entry(t, ov, d)));
                lemma_filter_all_excluded(og, pred);
                match json_get(d, t) {
                    Some(ev) => match ev {
                        JsonV::Arr(eg) => {
                            assert(merged_entry(t, ov, d) == JsonV::Arr(og + foreign_of(eg)));
                            Seq::filter_distributes_over_add(og, foreign_of(eg), pred);
                            lemma_foreign_of_idempotent(eg);
                            assert(foreign_of(og + foreign_of(eg)) =~= foreign_of(eg));
                            assert(og + foreign_of(og + foreign_of(eg)) =~= og + foreign_of(
                                eg,
                            ));
                            assert(merged_entry(t, ov, m) == merged_entry(t, ov, d));
                        },
                        _ => {
                            assert(merged_entry(t, ov, d) == ov);
                            assert(og + foreign_of(og) =~= og);
                            assert(JsonV::Arr(og) == ov);
                            assert(merged_entry(t, ov, m) == ov);
                        },
                    },
                    None => {
                        assert(merged_entry(t, ov, d) == ov);
                        assert(og + foreign_of(og) =~= og);
                        assert(JsonV::Arr(og) == ov);
                        assert(merged_entry(t, ov, m) == ov);
                    },
                }
            }
            assert(merged_our_fields(of, m) =~= ourpart);
            lemma_extra_concat(ourpart, extrapart, o);
            assert forall|k: int| 0 <= k < ourpart.len() implies json_get(
                o,
                (#[trigger] ourpart[k]).0,
            ) is Some by {
                assert(ourpart[k].0 == of[k].0);
                lemma_lookup_present(of, k);
            }
            lemma_extra_all_present(ourpart, o);
            assert forall|k: int| 0 <= k < extrapart.len() implies json_get(
                o,
                (#[trigger] extrapart[k]).0,
            ) is None && merged_value(extrapart[k].1) == extrapart[k].1 by {
                lemma_extra_fields_entries(ef, o, k);
            }
            lemma_extra_all_absent_fixed(extrapart, o);
            assert(extra_fields(ourpart + extrapart, o) =~= extrapart);
            assert(merged_our_fields(of, m) + extra_fields(ourpart + extrapart, o)
                =~= ourpart + extrapart);
            assert(merge_hooks_spec(m, o) == JsonV::Obj(
                merged_our_fields(of, m) + extra_fields(ourpart + extrapart, o),
            ));
        },
        _ => {
            let m = merge_hooks_spec(d, o);
            assert(m == o);
            assert forall|k: int| 0 <= k < of.len() implies merged_our_fields(of, o)[k]
                == of[k] by {
                let t = of[k].0;
                let ov = of[k].1;
                let og = ov->Arr_0;
                assert(forall|n: int| 0 <= n < og.len() ==> !pred(#[trigger] og[n]));
                lemma_lookup_unique_at(of, k);
                lemma_filter_all_excluded(og, pred);
                assert(og + foreign_of(og) =~= og);
                assert(JsonV::Arr(og) == ov);
                assert(merged_entry(t, ov, o) == ov);
            }
            assert(merged_our_fields(of, o) =~= of);
            assert forall|k: int| 0 <= k < of.len() implies json_get(
                o,
                (#[trigger] of[k]).0,
            ) is Some by {
                lemma_lookup_present(of, k);
            }
            lemma_extra_all_present(of, o);
            assert(merged_our_fields(of, o) + extra_fields(of, o) =~= of);
            assert(merge_hooks_spec(o, o) == JsonV::Obj(
                merged_our_fields(of, o) + extra_fields(of, o),
            ));
            assert(JsonV::Obj(of) == o);
        },
    }
}

/// Foreign preservation: a foreign hook group standing in the existing
/// document appears unchanged in the merge result under its hook type.
pub proof fn lemma_merge_preserves_foreign(d: JsonV, o: JsonV, t: Seq<char>, i: int)
    requires
        d is Obj,
        o is Obj,
        json_get(d, t) is Some,
        json_get(d, t)->0 is Arr,
        0 <= i < json_get(d, t)->0->Arr_0.len(),
        is_foreign(json_get(d, t)->0->Arr_0[i]),
        json_get(o, t) is Some ==> json_get(o, t)->0 is Arr,
    ensures
        json_get(merge_hooks_spec(d, o), t) is Some,
        json_get(merge_hooks_spec(d, o), t)->0 is Arr,
        json_get(merge_hooks_spec(d, o), t)->0->Arr_0.contains(json_get(d, t)->0->Arr_0[i]),
{
    let ef = d->Obj_0;
    let of = o->Obj_0;
    let g = json_get(d, t)->0->Arr_0[i];
    let eg = json_get(d, t)->0->Arr_0;
    let pred = |x: JsonV| is_foreign(x);
    let m = merge_hooks_spec(d, o);
    assert(m == JsonV::Obj(merged_our_fields(of, d) + extra_fields(ef, o)));
    lemma_lookup_concat(merged_our_fields(of, d), extra_fields(ef, o), t);
    lemma_lookup_merged_our(of, d, t);
    eg.lemma_filter_contains(pred, i);
    assert(foreign_of(eg).contains(g));
    match lookup_fields(of, t) {
        Some(ov) => {
            assert(json_get(m, t) == Some(merged_entry(t, ov, d)));
            assert(ov is Arr);
            let og = ov->Arr_0;
            assert(merged_entry(t, ov, d) == JsonV::Arr(og + foreign_of(eg)));
            let w = choose|k: int| 0 <= k < foreign_of(eg).len() && foreign_of(eg)[k] == g;
            assert((og + foreign_of(eg))[og.len() + w] == g);
        },
        None => {
            lemma_lookup_extra(ef, o, t);
            assert(json_get(m, t) == Some(merged_value(json_get(d, t)->0)));
            assert(merged_value(json_get(d, t)->0) == JsonV::Arr(foreign_of(eg)));
        },
    }
}

/// No group of a stripped document belongs to this tool.
pub proof fn lemma_strip_no_own(doc: JsonV, t: Seq<char>, i: int)
    requires
        json_get(strip_own_spec(doc), t) is Some,
        json_get(strip_own_spec(doc), t)->0 is Arr,
        0 <= i < json_get(strip_own_spec(doc), t)->0->Arr_0.len(),
    ensures
        is_foreign(json_get(strip_own_spec(doc), t)->0->Arr_0[i]),
{
    let fs = doc->Obj_0;
    match doc {
        JsonV::Obj(_) => {
            let v = json_get(strip_own_spec(doc), t)->0;
            lemma_lookup_strip_entry(fs, t);
            let gs = v->Arr_0;
            let pred = |x: JsonV| is_foreign(x);
            assert(exists|orig: Seq<JsonV>| gs == foreign_of(orig));
            let orig = choose|orig: Seq<JsonV>| gs == foreign_of(orig);
            orig.lemma_filter_pred(pred, i);
        },
        _ => {
            assert(strip_own_spec(doc) == doc);
            assert(json_get(doc, t) is None);
        },
    }
}

/// Any array value reachable by lookup in a stripped field sequence is
/// a foreign filter of some original sequence.
proof fn lemma_lookup_strip_entry(fs: Seq<(Seq<char>, JsonV)>, t: Seq<char>)
    ensures
        match lookup_fields(strip_fields(fs), t) {
            Some(v) => v is Arr ==> exists|orig: Seq<JsonV>| v->Arr_0 == foreign_of(orig),
            None => true,
        },
    decreases fs.len(),
{
    if fs.len() == 0 {
    } else {
        let butlast = fs.drop_last();
        lemma_lookup_strip_entry(butlast, t);
        let tail = strip_one(fs.last());
        assert(strip_fields(fs) == strip_fields(butlast) + tail);
        lemma_lookup_concat(strip_fields(butlast), tail, t);
        if lookup_fields(strip_fields(butlast), t) is Some {
        } else {
            match fs.last().1 {
                JsonV::Arr(gs) => {
                    if foreign_of(gs).len() == 0 && gs.len() > 0 {
                        assert(tail =~= Seq::<(Seq<char>, JsonV)>::empty());
                        assert(lookup_fields(tail, t) is None);
                    } else {
                        lemma_lookup_single((fs.last().0, JsonV::Arr(foreign_of(gs))), t);
                        if fs.last().0 == t {
                            assert(lookup_fields(tail, t) == Some(JsonV::Arr(foreign_of(gs))));
                            assert((JsonV::Arr(foreign_of(gs)))->Arr_0 == foreign_of(gs));
                        }
                    }
                },
                _ => {
                    lemma_lookup_single(fs.last(), t);
                    if fs.last().0 == t {
                        assert(lookup_fields(tail, t) == Some(fs.last().1));
                        assert(!(fs.last().1 is Arr));
                    }
                },
            }
        }
    }
}

/// Own-hook stripping round-trip: stripping a merge result leaves no
/// group of this tool, whatever the existing document and canonical
/// set were.
pub proof fn lemma_strip_after_merge_no_own(d: JsonV, o: JsonV, t: Seq<char>, i: int)
    requires
        json_get(strip_own_spec(merge_hooks_spec(d, o)), t) is Some,
        json_get(strip_own_spec(merge_hooks_spec(d, o)), t)->0 is Arr,
        0 <= i < json_get(strip_own_spec(merge_hooks_spec(d, o)), t)->0->Arr_0.len(),
    ensures
        is_foreign(json_get(strip_own_spec(merge_hooks_spec(d, o)), t)->0->Arr_0[i]),
{
    lemma_strip_no_own(merge_hooks_spec(d, o), t, i);
}

} // verus!
