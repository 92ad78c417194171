//! The manifest mutation engine: one mutated definition text per payload.
//!
//! Two mutually exclusive modes, selected by the combination of field
//! selector and sentinel presence, never by the selector alone: when the
//! Regex field is targeted and the literal sentinel occurs in the definition
//! text, every occurrence of the sentinel is replaced by the escaped payload
//! verbatim; in every other case — including a Regex request against a text
//! without the sentinel, which silently falls back — the definition is
//! filtered for conflicting authorship assertions and rendered back to
//! text.

use vstd::prelude::*;
use crate::escape::escape;
use crate::escape::escaped_payload;
use crate::fields::FieldSelector;
use crate::filter::filter_definition;
use crate::filter::spec_definition_wellformed;
use crate::filter::spec_dropped_count;
use crate::filter::spec_filtered_map;
use crate::jsonio::obj_entries;
use crate::jsonio::parsed_map;
use crate::jsonio::parses_as_object;
use crate::jsonio::rendered_object;
use crate::jsonio::serialize_object;
use crate::textsub::contains_token;
use crate::textsub::find_token;
use crate::textsub::match_count;
use crate::textsub::replace_all;
use crate::textsub::replace_token;
use crate::textsub::lemma_single_occurrence_substitution;
use crate::textsub::lemma_substitution_removes_token;

verus! {

/// The fixed sentinel token that regex mode searches for and substitutes.
pub open spec fn spec_sentinel() -> Seq<char> {
    "C2PA_ATTACK"@
}

/// The sentinel token.
pub fn sentinel() -> (r: &'static str)
    ensures
        r@ == spec_sentinel(),
{
    "C2PA_ATTACK"
}

/// Why a mutation failed; each failure is scoped to the corpus line that
/// caused it.
#[derive(Clone, Copy, Debug, PartialEq, Eq, Structural)]
pub enum MutateError {
    /// The definition text is not a JSON object.
    InvalidJson,
    /// The `assertions` entry is not an array, or a CreativeWork assertion
    /// carries no object under `data`.
    MalformedAssertions,
}

/// One mutated manifest definition.
#[derive(Debug)]
pub struct MutationOutcome {
    /// The mutated definition text.
    pub text: String,
    /// Whether regex mode ran: the Regex field was targeted and the
    /// sentinel occurred in the definition text.
    pub regex_mode: bool,
    /// How many pre-existing assertions the authorship-conflict rule
    /// dropped; 0 in regex mode.
    pub dropped_assertions: usize,
}

/// Mode selection: regex mode runs exactly when the Regex field is targeted
/// and the sentinel occurs in the definition text.
pub open spec fn spec_regex_mode(definition: Seq<char>, field: FieldSelector) -> bool {
    field == FieldSelector::Regex && contains_token(definition, spec_sentinel())
}

/// The text a successful mutation produces: verbatim sentinel substitution
/// in regex mode, the rendering of the filtered definition otherwise.
pub open spec fn spec_mutated_text(
    definition: Seq<char>,
    field: FieldSelector,
    payload: Seq<char>,
) -> Seq<char> {
    if spec_regex_mode(definition, field) {
        replace_all(definition, spec_sentinel(), escaped_payload(payload))
    } else {
        rendered_object(spec_filtered_map(definition, field))
    }
}

/// Mutates one manifest definition with one payload: sentinel substitution
/// in regex mode, assertion filtering in field-targeted mode. The result is
/// not re-validated as JSON in regex mode; validation happens when the
/// caller next parses it.
pub fn mutate(definition_json: &str, field: FieldSelector, payload: &str) -> (r: Result<
    MutationOutcome,
    MutateError,
>)
    ensures
        r matches Ok(m) ==> m.regex_mode == spec_regex_mode(definition_json@, field)
            && m.text@ == spec_mutated_text(definition_json@, field, payload@),
        spec_regex_mode(definition_json@, field) ==> (r matches Ok(m) && m.text@ == replace_all(
            definition_json@,
            spec_sentinel(),
            escaped_payload(payload@),
        ) && m.dropped_assertions == 0),
        !spec_regex_mode(definition_json@, field) ==> {
            &&& (r == Err::<MutationOutcome, MutateError>(MutateError::InvalidJson)
                <==> !parses_as_object(definition_json@))
            &&& (parses_as_object(definition_json@) ==> (r is Ok <==> spec_definition_wellformed(
                obj_entries(parsed_map(definition_json@)),
            )))
            &&& (r == Err::<MutationOutcome, MutateError>(MutateError::MalformedAssertions) <==> (
            parses_as_object(definition_json@) && !spec_definition_wellformed(
                obj_entries(parsed_map(definition_json@)),
            )))
            &&& (r matches Ok(m) ==> m.dropped_assertions as int == spec_dropped_count(
                definition_json@,
                field,
            ))
        },
{
    proof {
        reveal_strlit("C2PA_ATTACK");
    }
    let is_regex = match field {
        FieldSelector::Regex => true,
        _ => false,
    };
    if is_regex && find_token(definition_json, sentinel()) {
        let escaped = escape(payload);
        let text = replace_token(definition_json, sentinel(), escaped.as_str());
        Ok(MutationOutcome { text, regex_mode: true, dropped_assertions: 0 })
    } else {
        let (object, dropped) = match filter_definition(definition_json, field) {
            Ok(p) => p,
            Err(e) => {
                return Err(e);
            },
        };
        let text = serialize_object(&object);
        Ok(MutationOutcome { text, regex_mode: false, dropped_assertions: dropped })
    }
}

/// Law (idempotence): both modes pin the produced text as a function of the
/// definition text, the field and the payload alone, so two mutations of
/// identical inputs yield identical text — immediate from `mutate`'s
/// contract.
pub proof fn lemma_mutate_idempotent(
    definition: Seq<char>,
    field: FieldSelector,
    payload: Seq<char>,
    t1: Seq<char>,
    t2: Seq<char>,
)
    requires
        t1 == spec_mutated_text(definition, field, payload),
        t2 == spec_mutated_text(definition, field, payload),
    ensures
        t1 == t2,
{
}

/// Law (regex-mode substitution): when the definition text contains the
/// sentinel exactly once — it splits as `a + sentinel + b` with no other
/// occurrence — regex-mode mutation yields exactly `a + escape(payload) + b`.
pub proof fn lemma_regex_mode_single_sentinel(a: Seq<char>, b: Seq<char>, payload: Seq<char>)
    requires
        match_count(a + spec_sentinel() + b, spec_sentinel()) == 1,
    ensures
        replace_all(a + spec_sentinel() + b, spec_sentinel(), escaped_payload(payload)) == a
            + escaped_payload(payload) + b,
{
    reveal_strlit("C2PA_ATTACK");
    lemma_single_occurrence_substitution(a, spec_sentinel(), b, escaped_payload(payload));
}

/// Law (regex-mode substitution, counting form): under the same split, the
/// substituted text contains the sentinel nowhere, provided the escaped
/// payload is non-empty and shares no character with the sentinel. A
/// payload that itself contains the sentinel, or contributes its characters
/// to an occurrence spanning a splice boundary, can reintroduce it.
pub proof fn lemma_regex_mode_removes_sentinel(a: Seq<char>, b: Seq<char>, payload: Seq<char>)
    requires
        match_count(a + spec_sentinel() + b, spec_sentinel()) == 1,
        escaped_payload(payload).len() >= 1,
        forall|k: int, l: int|
            0 <= k < escaped_payload(payload).len() && 0 <= l < spec_sentinel().len()
                ==> escaped_payload(payload)[k] != spec_sentinel()[l],
    ensures
        match_count(a + escaped_payload(payload) + b, spec_sentinel()) == 0,
{
    reveal_strlit("C2PA_ATTACK");
    lemma_substitution_removes_token(a, spec_sentinel(), b, escaped_payload(payload));
}

} // verus!
