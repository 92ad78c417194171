//! Removal of manifest assertions that would conflict with an injected
//! authorship claim.
//!
//! A CreativeWork assertion is dropped when the targeted field is about to
//! claim authorship over the same ground: its data carries an `author` entry
//! and the Author or PersonIdentifier field is targeted, or a `creator`
//! entry and the PersonIdentifier field is targeted. Everything else —
//! non-CreativeWork assertions, CreativeWork assertions without authorship
//! entries, every other top-level key of the definition — passes through
//! unchanged and in its original order.

use vstd::prelude::*;
use crate::fields::FieldSelector;
use crate::jsonio::array_of;
use crate::jsonio::array_value;
use crate::jsonio::obj_entries;
use crate::jsonio::obj_with;
use crate::jsonio::object_contains_key;
use crate::jsonio::object_get;
use crate::jsonio::object_insert;
use crate::jsonio::parse_object;
use crate::jsonio::parsed_map;
use crate::jsonio::parses_as_object;
use crate::jsonio::value_as_array;
use crate::jsonio::value_as_object;
use crate::jsonio::value_entries;
use crate::jsonio::value_equals_str;
use crate::jsonio::value_get;
use crate::jsonio::value_items;
use crate::jsonio::value_str;
use crate::mutate::MutateError;

verus! {

/// The label that marks a CreativeWork assertion.
pub const CREATIVE_WORK_LABEL: &'static str = "stds.schema-org.CreativeWork";

/// What the authorship-conflict rule reads of one assertion.
#[derive(Clone, Copy, Debug, PartialEq, Eq, Structural)]
pub struct AssertionView {
    /// The assertion's label equals the CreativeWork label.
    pub creative_work: bool,
    /// The assertion's data carries an `author` entry.
    pub has_author: bool,
    /// The assertion's data carries a `creator` entry.
    pub has_creator: bool,
}

/// The authorship-conflict rule: exactly when all of this holds is an
/// assertion dropped.
pub open spec fn conflicts_with(a: AssertionView, field: FieldSelector) -> bool {
    a.creative_work && ((a.has_author && field == FieldSelector::Author) || (a.has_author && field
        == FieldSelector::PersonIdentifier) || (a.has_creator && field
        == FieldSelector::PersonIdentifier))
}

/// Whether one assertion conflicts with the claim about to be injected for
/// this field.
pub fn assertion_conflicts(a: AssertionView, field: FieldSelector) -> (b: bool)
    ensures
        b == conflicts_with(a, field),
{
    a.creative_work && ((a.has_author && (field == FieldSelector::Author || field
        == FieldSelector::PersonIdentifier)) || (a.has_creator && field
        == FieldSelector::PersonIdentifier))
}

/// The indices of the assertions that survive filtering, in their original
/// order.
pub open spec fn spec_surviving(views: Seq<AssertionView>, field: FieldSelector) -> Seq<int>
    decreases views.len(),
{
    if views.len() == 0 {
        Seq::empty()
    } else {
        let prefix = spec_surviving(views.drop_last(), field);
        if conflicts_with(views.last(), field) {
            prefix
        } else {
            prefix.push(views.len() - 1)
        }
    }
}

/// A listing of exactly the surviving assertion indices, in increasing
/// order.
pub open spec fn is_surviving_listing(
    views: Seq<AssertionView>,
    field: FieldSelector,
    r: Seq<int>,
) -> bool {
    &&& forall|k: int|
        0 <= k < r.len() ==> 0 <= #[trigger] r[k] < views.len() && !conflicts_with(
            views[r[k]],
            field,
        )
    &&& forall|k1: int, k2: int| 0 <= k1 < k2 < r.len() ==> r[k1] < r[k2]
    &&& forall|i: int| 0 <= i < views.len() && !conflicts_with(views[i], field) ==> r.contains(i)
}

/// Law (order preservation and exactness): the surviving indices are those
/// of precisely the non-conflicting assertions, strictly increasing — the
/// filter never reorders what it keeps — and there are never more of them
/// than there were assertions.
pub proof fn lemma_surviving_characterization(views: Seq<AssertionView>, field: FieldSelector)
    ensures
        is_surviving_listing(views, field, spec_surviving(views, field)),
        spec_surviving(views, field).len() <= views.len(),
    decreases views.len(),
{
    if views.len() > 0 {
        lemma_surviving_characterization(views.drop_last(), field);
        let prefix = spec_surviving(views.drop_last(), field);
        let whole = spec_surviving(views, field);
        assert forall|i: int|
            0 <= i < views.len() && !conflicts_with(views[i], field) implies whole.contains(
            i,
        ) by {
            if i < views.len() - 1 {
                assert(views.drop_last()[i] == views[i]);
                assert(prefix.contains(i));
                let k = choose|k: int| 0 <= k < prefix.len() && prefix[k] == i;
                if !conflicts_with(views.last(), field) {
                    assert(whole[k] == i);
                } else {
                    assert(whole[k] == i);
                }
            } else {
                assert(!conflicts_with(views.last(), field));
                assert(whole[whole.len() - 1] == i);
            }
        }
        assert forall|k: int|
            0 <= k < whole.len() implies 0 <= #[trigger] whole[k] < views.len() && !conflicts_with(
            views[whole[k]],
            field,
        ) by {
            if k < prefix.len() {
                assert(whole[k] == prefix[k]);
                assert(views.drop_last()[prefix[k]] == views[prefix[k]]);
            } else {
                assert(whole[k] == views.len() - 1);
            }
        }
    }
}

proof fn lemma_sorted_distinct_equal(r1: Seq<int>, r2: Seq<int>)
    requires
        forall|k1: int, k2: int| 0 <= k1 < k2 < r1.len() ==> r1[k1] < r1[k2],
        forall|k1: int, k2: int| 0 <= k1 < k2 < r2.len() ==> r2[k1] < r2[k2],
        forall|x: int| r1.contains(x) <==> r2.contains(x),
    ensures
        r1 == r2,
    decreases r1.len(),
{
    if r1.len() == 0 {
        if r2.len() > 0 {
            assert(r2.contains(r2[0]));
            assert(false);
        }
        assert(r1 =~= r2);
    } else {
        assert(r1.contains(r1[0]));
        assert(r2.len() > 0);
        assert(r2.contains(r2[0]));
        let k1 = choose|k: int| 0 <= k < r1.len() && r1[k] == r2[0];
        let k2 = choose|k: int| 0 <= k < r2.len() && r2[k] == r1[0];
        assert(r1[0] <= r1[k1]);
        assert(r2[0] <= r2[k2]);
        assert(r1[0] == r2[0]);
        let t1 = r1.skip(1);
        let t2 = r2.skip(1);
        assert forall|x: int| t1.contains(x) implies t2.contains(x) by {
            let k = choose|k: int| 0 <= k < t1.len() && t1[k] == x;
            assert(r1[k + 1] == x);
            assert(r1[0] < x);
            assert(r1.contains(x));
            assert(r2.contains(x));
            let l = choose|l: int| 0 <= l < r2.len() && r2[l] == x;
            assert(l != 0);
            assert(t2[l - 1] == x);
        }
        assert forall|x: int| t2.contains(x) implies t1.contains(x) by {
            let k = choose|k: int| 0 <= k < t2.len() && t2[k] == x;
            assert(r2[k + 1] == x);
            assert(r2[0] < x);
            assert(r2.contains(x));
            assert(r1.contains(x));
            let l = choose|l: int| 0 <= l < r1.len() && r1[l] == x;
            assert(l != 0);
            assert(t1[l - 1] == x);
        }
        assert forall|k1a: int, k2a: int| 0 <= k1a < k2a < t1.len() implies t1[k1a] < t1[k2a] by {
            assert(t1[k1a] == r1[k1a + 1]);
            assert(t1[k2a] == r1[k2a + 1]);
        }
        assert forall|k1a: int, k2a: int| 0 <= k1a < k2a < t2.len() implies t2[k1a] < t2[k2a] by {
            assert(t2[k1a] == r2[k1a + 1]);
            assert(t2[k2a] == r2[k2a + 1]);
        }
        lemma_sorted_distinct_equal(t1, t2);
        assert(t1.len() == t2.len());
        assert forall|j: int| 0 <= j < r1.len() implies r1[j] == r2[j] by {
            if j > 0 {
                assert(t1[j - 1] == r1[j]);
                assert(t2[j - 1] == r2[j]);
            }
        }
        assert(r1 =~= r2);
    }
}

/// Law (the filter is a function of its inputs): any two listings of the
/// surviving indices for the same assertions and field are identical, so
/// repeating a mutation on identical inputs keeps the same assertions in
/// the same order.
pub proof fn lemma_filter_deterministic(
    views: Seq<AssertionView>,
    field: FieldSelector,
    r1: Seq<int>,
    r2: Seq<int>,
)
    requires
        is_surviving_listing(views, field, r1),
        is_surviving_listing(views, field, r2),
    ensures
        r1 == r2,
{
    assert forall|x: int| r1.contains(x) implies r2.contains(x) by {
        let k = choose|k: int| 0 <= k < r1.len() && r1[k] == x;
        assert(0 <= r1[k] < views.len() && !conflicts_with(views[r1[k]], field));
    }
    assert forall|x: int| r2.contains(x) implies r1.contains(x) by {
        let k = choose|k: int| 0 <= k < r2.len() && r2[k] == x;
        assert(0 <= r2[k] < views.len() && !conflicts_with(views[r2[k]], field));
    }
    lemma_sorted_distinct_equal(r1, r2);
}

/// Law (assertion preservation): for two assertions of which the first is a
/// CreativeWork authorship claim and the second is no CreativeWork
/// assertion at all, filtering for the Author field drops exactly the first
/// and preserves the second.
pub proof fn lemma_author_filter_pair(a0: AssertionView, a1: AssertionView)
    ensures
        a0.creative_work && a0.has_author && !a1.creative_work ==> spec_surviving(
            seq![a0, a1],
            FieldSelector::Author,
        ) == seq![1int],
{
    if a0.creative_work && a0.has_author && !a1.creative_work {
        let views = seq![a0, a1];
        assert(views.drop_last() =~= seq![a0]);
        assert(seq![a0].drop_last() =~= Seq::<AssertionView>::empty());
        assert(spec_surviving(Seq::<AssertionView>::empty(), FieldSelector::Author)
            =~= Seq::<int>::empty());
        assert(seq![a0].last() == a0);
        assert(conflicts_with(a0, FieldSelector::Author));
        assert(spec_surviving(seq![a0], FieldSelector::Author) =~= Seq::<int>::empty());
        assert(views.last() == a1);
        assert(!conflicts_with(a1, FieldSelector::Author));
        assert(spec_surviving(views, FieldSelector::Author) =~= seq![1int]);
    }
}

/// Keeps, in order, the indices of the assertions that do not conflict with
/// the claim about to be injected.
pub fn surviving_indices(views: &Vec<AssertionView>, field: FieldSelector) -> (r: Vec<usize>)
    ensures
        r@.map_values(|u: usize| u as int) == spec_surviving(views@, field),
        r@.len() <= views@.len(),
{
    let mut r: Vec<usize> = Vec::new();
    let mut i: usize = 0;
    while i < views.len()
        invariant
            i <= views@.len(),
            r@.map_values(|u: usize| u as int) == spec_surviving(views@.take(i as int), field),
            r@.len() <= i,
        decreases views@.len() - i,
    {
        let ghost pre = views@.take(i as int);
        let ghost ext = views@.take(i + 1 as int);
        if !assertion_conflicts(views[i], field) {
            r.push(i);
            proof {
                assert(r@.map_values(|u: usize| u as int) =~= spec_surviving(pre, field).push(
                    i as int,
                ));
            }
        }
        proof {
            assert(ext.drop_last() =~= pre);
            assert(ext.last() == views@[i as int]);
        }
        i = i + 1;
    }
    proof {
        assert(views@.take(views@.len() as int) =~= views@);
    }
    r
}

/// The value an assertion holds under a key, when the assertion is a JSON
/// object carrying that key.
pub open spec fn spec_field_value(a: serde_json::Value, key: Seq<char>) -> Option<
    serde_json::Value,
> {
    match value_entries(a) {
        Option::Some(es) => if es.dom().contains(key) {
            Option::Some(es[key])
        } else {
            Option::None
        },
        Option::None => Option::None,
    }
}

/// Whether an assertion value carries the CreativeWork label.
pub open spec fn spec_is_creative_work(a: serde_json::Value) -> bool {
    match spec_field_value(a, "label"@) {
        Option::Some(label) => value_str(label) == Option::Some(CREATIVE_WORK_LABEL@),
        Option::None => false,
    }
}

/// What the conflict rule reads of one assertion value. A CreativeWork
/// assertion without object data never reaches the rule: it is rejected as
/// malformed first.
pub open spec fn spec_view_of(a: serde_json::Value) -> AssertionView {
    if spec_is_creative_work(a) {
        match spec_field_value(a, "data"@) {
            Option::Some(data) => match value_entries(data) {
                Option::Some(entries) => AssertionView {
                    creative_work: true,
                    has_author: entries.dom().contains("author"@),
                    has_creator: entries.dom().contains("creator"@),
                },
                Option::None => AssertionView {
                    creative_work: true,
                    has_author: false,
                    has_creator: false,
                },
            },
            Option::None => AssertionView {
                creative_work: true,
                has_author: false,
                has_creator: false,
            },
        }
    } else {
        AssertionView { creative_work: false, has_author: false, has_creator: false }
    }
}

/// A CreativeWork assertion must carry a JSON object under `data`; of any
/// other assertion nothing is required.
pub open spec fn spec_assertion_wellformed(a: serde_json::Value) -> bool {
    spec_is_creative_work(a) ==> (spec_field_value(a, "data"@) matches Option::Some(data)
        && value_entries(data) is Some)
}

/// The views of a whole assertions array, in order.
pub open spec fn spec_views_of(items: Seq<serde_json::Value>) -> Seq<AssertionView> {
    items.map_values(|a: serde_json::Value| spec_view_of(a))
}

/// The assertion values that survive filtering, unmodified and in their
/// original order.
pub open spec fn spec_kept_items(items: Seq<serde_json::Value>, field: FieldSelector) -> Seq<
    serde_json::Value,
> {
    spec_surviving(spec_views_of(items), field).map_values(|i: int| items[i])
}

/// A parsed definition the filter accepts: its `assertions` entry, when
/// present, is an array whose CreativeWork assertions all carry object
/// data.
pub open spec fn spec_definition_wellformed(es: Map<Seq<char>, serde_json::Value>) -> bool {
    es.dom().contains("assertions"@) ==> (value_items(es["assertions"@]) matches Option::Some(
        items,
    ) && forall|i: int| 0 <= i < items.len() ==> spec_assertion_wellformed(#[trigger] items[i]))
}

/// The object the filter returns for a definition text: the parsed object
/// with its `assertions` entry — when present — rebuilt to exactly the
/// surviving assertions.
pub open spec fn spec_filtered_map(text: Seq<char>, field: FieldSelector) -> serde_json::Map<
    String,
    serde_json::Value,
> {
    let m = parsed_map(text);
    let es = obj_entries(m);
    if es.dom().contains("assertions"@) {
        let items = value_items(es["assertions"@])->Some_0;
        obj_with(m, "assertions"@, array_of(spec_kept_items(items, field)))
    } else {
        m
    }
}

/// How many assertions the filter drops from a definition text.
pub open spec fn spec_dropped_count(text: Seq<char>, field: FieldSelector) -> int {
    let es = obj_entries(parsed_map(text));
    if es.dom().contains("assertions"@) {
        let items = value_items(es["assertions"@])->Some_0;
        items.len() - spec_kept_items(items, field).len()
    } else {
        0
    }
}

/// What the produced object looks like next to the parsed entries `es`: the
/// key set is unchanged, every key other than `assertions` keeps its exact
/// value, and the `assertions` entry — when present — holds exactly the
/// surviving assertion values, unmodified and in their original order.
pub open spec fn spec_filter_shape(
    es: Map<Seq<char>, serde_json::Value>,
    field: FieldSelector,
    out: Map<Seq<char>, serde_json::Value>,
    dropped: int,
) -> bool {
    &&& out.dom() == es.dom()
    &&& forall|k: Seq<char>|
        es.dom().contains(k) && k != "assertions"@ ==> out[k] == #[trigger] es[k]
    &&& (es.dom().contains("assertions"@) ==> (value_items(es["assertions"@])
        matches Option::Some(items) && value_items(out["assertions"@]) == Option::Some(
        spec_kept_items(items, field),
    ) && dropped == items.len() - spec_kept_items(items, field).len()))
    &&& (!es.dom().contains("assertions"@) ==> dropped == 0)
}

/// Reads what the conflict rule needs of one assertion: whether it is a
/// CreativeWork assertion and whether its data carries `author` or
/// `creator` entries. A CreativeWork assertion whose `data` is missing or
/// not an object is malformed.
fn classify_assertion(a: &serde_json::Value) -> (r: Result<AssertionView, MutateError>)
    ensures
        r is Ok <==> spec_assertion_wellformed(*a),
        r matches Ok(v) ==> v == spec_view_of(*a),
        r is Err ==> r == Err::<AssertionView, MutateError>(MutateError::MalformedAssertions),
{
    let creative_work = match value_get(a, "label") {
        Some(label) => value_equals_str(label, CREATIVE_WORK_LABEL),
        None => false,
    };
    assert(creative_work == spec_is_creative_work(*a));
    if !creative_work {
        return Ok(
            AssertionView { creative_work: false, has_author: false, has_creator: false },
        );
    }
    let data = match value_get(a, "data") {
        Some(d) => d,
        None => {
            return Err(MutateError::MalformedAssertions);
        },
    };
    let obj = match value_as_object(data) {
        Some(o) => o,
        None => {
            return Err(MutateError::MalformedAssertions);
        },
    };
    Ok(
        AssertionView {
            creative_work: true,
            has_author: object_contains_key(obj, "author"),
            has_creator: object_contains_key(obj, "creator"),
        },
    )
}

/// Filters a manifest definition for one targeted field: every top-level
/// key other than `assertions` is kept unchanged, and of the assertions
/// exactly the non-conflicting ones survive, in their original order. Also
/// returns how many assertions were dropped, for the caller's diagnostics.
/// Fails with `InvalidJson` exactly when the text is not a JSON object and
/// with `MalformedAssertions` exactly when the parsed object's assertions
/// are not well formed.
pub fn filter_definition(definition_json: &str, field: FieldSelector) -> (r: Result<
    (serde_json::Map<String, serde_json::Value>, usize),
    MutateError,
>)
    ensures
        r == Err::<(serde_json::Map<String, serde_json::Value>, usize), MutateError>(
            MutateError::InvalidJson,
        ) <==> !parses_as_object(definition_json@),
        parses_as_object(definition_json@) ==> (r is Ok <==> spec_definition_wellformed(
            obj_entries(parsed_map(definition_json@)),
        )),
        r == Err::<(serde_json::Map<String, serde_json::Value>, usize), MutateError>(
            MutateError::MalformedAssertions,
        ) <==> (parses_as_object(definition_json@) && !spec_definition_wellformed(
            obj_entries(parsed_map(definition_json@)),
        )),
        r matches Ok(p) ==> {
            &&& p.0 == spec_filtered_map(definition_json@, field)
            &&& p.1 as int == spec_dropped_count(definition_json@, field)
            &&& spec_filter_shape(
                obj_entries(parsed_map(definition_json@)),
                field,
                obj_entries(p.0),
                p.1 as int,
            )
        },
{
    let parsed = match parse_object(definition_json) {
        Ok(m) => m,
        Err(_) => {
            return Err(MutateError::InvalidJson);
        },
    };
    let ghost es = obj_entries(parsed_map(definition_json@));
    let assertions = match object_get(&parsed, "assertions") {
        Some(v) => v,
        None => {
            let out = parsed.clone();
            proof {
                assert(spec_filter_shape(es, field, obj_entries(out), 0));
            }
            return Ok((out, 0));
        },
    };
    let arr = match value_as_array(assertions) {
        Some(a) => a,
        None => {
            return Err(MutateError::MalformedAssertions);
        },
    };
    let mut views: Vec<AssertionView> = Vec::new();
    let mut i: usize = 0;
    while i < arr.len()
        invariant
            i <= arr@.len(),
            views@.len() == i,
            parses_as_object(definition_json@),
            es == obj_entries(parsed_map(definition_json@)),
            es.dom().contains("assertions"@),
            value_items(es["assertions"@]) == Some(arr@),
            forall|j: int|
                0 <= j < i ==> views@[j] == spec_view_of(#[trigger] arr@[j])
                    && spec_assertion_wellformed(arr@[j]),
        decreases arr@.len() - i,
    {
        match classify_assertion(&arr[i]) {
            Ok(v) => views.push(v),
            Err(e) => {
                proof {
                    assert(!spec_assertion_wellformed(arr@[i as int]));
                    if spec_definition_wellformed(es) {
                        let items = value_items(es["assertions"@])->Some_0;
                        assert(items == arr@);
                        assert(spec_assertion_wellformed(items[i as int]));
                    }
                }
                return Err(e);
            },
        }
        i = i + 1;
    }
    proof {
        assert(views@ =~= spec_views_of(arr@));
    }
    let keep = surviving_indices(&views, field);
    proof {
        lemma_surviving_characterization(views@, field);
    }
    let mut kept: Vec<serde_json::Value> = Vec::new();
    let mut k: usize = 0;
    while k < keep.len()
        invariant
            keep@.map_values(|u: usize| u as int) == spec_surviving(views@, field),
            is_surviving_listing(views@, field, keep@.map_values(|u: usize| u as int)),
            views@.len() == arr@.len(),
            k <= keep@.len(),
            kept@.len() == k,
            forall|j: int|
                0 <= j < k ==> (#[trigger] keep@[j] as int) < arr@.len() && kept@[j] == arr@[keep@[j] as int],
        decreases keep@.len() - k,
    {
        let idx = keep[k];
        proof {
            assert(keep@.map_values(|u: usize| u as int)[k as int] == idx as int);
        }
        let item = arr[idx].clone();
        kept.push(item);
        k = k + 1;
    }
    proof {
        assert(kept@ =~= spec_kept_items(arr@, field)) by {
            let listing = spec_surviving(views@, field);
            assert(kept@.len() == listing.len());
            assert forall|j: int| 0 <= j < kept@.len() implies kept@[j] == spec_kept_items(
                arr@,
                field,
            )[j] by {
                assert(kept@[j] == arr@[keep@[j] as int]);
                assert(keep@.map_values(|u: usize| u as int)[j] == keep@[j] as int);
            }
        }
    }
    let dropped = arr.len() - keep.len();
    let mut out = parsed.clone();
    object_insert(&mut out, "assertions".to_owned(), array_value(kept));
    proof {
        assert(out == spec_filtered_map(definition_json@, field));
        assert(obj_entries(out) =~= es.insert("assertions"@, array_of(spec_kept_items(arr@, field))));
        assert(obj_entries(out).dom() =~= es.dom());
        assert(dropped as int == spec_dropped_count(definition_json@, field));
        assert(spec_filter_shape(es, field, obj_entries(out), dropped as int));
    }
    Ok((out, dropped))
}

} // verus!
