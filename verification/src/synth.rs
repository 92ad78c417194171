//! The synthetic authorship claim and the direct field mutations that are
//! applied to the built manifest after filtering.
//!
//! Author and PersonIdentifier targets get a synthetic CreativeWork
//! assertion carrying the payload inside a person record; the other targets
//! set one flat manifest attribute to the raw, unescaped payload. Both are
//! additive: they come on top of the filtered definition, which is why the
//! conflicting pre-existing assertions were removed first.

use vstd::prelude::*;
use crate::fields::FieldSelector;

verus! {

/// One person/identity record inside a synthetic CreativeWork assertion.
#[derive(Debug)]
pub struct PersonRecord {
    /// The display name.
    pub name: String,
    /// The schema identifier entry, present only when the person-identifier
    /// field is targeted.
    pub identifier: Option<String>,
    /// The values of the auxiliary identity-reference entry (`@id`).
    pub id_refs: Vec<String>,
}

/// A synthetic CreativeWork assertion to attach to the built manifest.
#[derive(Debug)]
pub struct CreativeWorkPlan {
    /// The sole author of the claim.
    pub author: PersonRecord,
    /// The same record attached redundantly under a `creator` entry, so two
    /// structurally different identity references carry the same
    /// attacker-controlled value.
    pub creator: Option<PersonRecord>,
}

/// Builds the synthetic CreativeWork assertion for a field selector, or
/// `None` for the selectors that claim no authorship. The Author target
/// puts the raw payload into the sole author's display name; the
/// PersonIdentifier target uses a fixed display name and puts the raw
/// payload into both the identifier and the identity-reference entry, as
/// author and redundantly as creator.
pub fn synthesize_creative_work(field: FieldSelector, payload: &str) -> (r: Option<
    CreativeWorkPlan,
>)
    ensures
        (r is Some) == (field == FieldSelector::Author || field
            == FieldSelector::PersonIdentifier),
        field == FieldSelector::Author ==> (r matches Some(p) && p.author.name@ == payload@
            && p.author.identifier is None && p.author.id_refs@.len() == 0 && p.creator is None),
        field == FieldSelector::PersonIdentifier ==> (r matches Some(p) && p.author.name@
            == "Malicious User"@ && (p.author.identifier matches Some(id) && id@ == payload@)
            && p.author.id_refs@.len() == 1 && p.author.id_refs@[0]@ == payload@ && (
        p.creator matches Some(c) && c.name@ == "Malicious User"@ && (c.identifier matches Some(
            cid,
        ) && cid@ == payload@) && c.id_refs@.len() == 1 && c.id_refs@[0]@ == payload@)),
{
    match field {
        FieldSelector::Author => {
            let author = PersonRecord {
                name: payload.to_owned(),
                identifier: None,
                id_refs: Vec::new(),
            };
            Some(CreativeWorkPlan { author, creator: None })
        },
        FieldSelector::PersonIdentifier => {
            let mut author_refs: Vec<String> = Vec::new();
            author_refs.push(payload.to_owned());
            let author = PersonRecord {
                name: "Malicious User".to_owned(),
                identifier: Some(payload.to_owned()),
                id_refs: author_refs,
            };
            let mut creator_refs: Vec<String> = Vec::new();
            creator_refs.push(payload.to_owned());
            let creator = PersonRecord {
                name: "Malicious User".to_owned(),
                identifier: Some(payload.to_owned()),
                id_refs: creator_refs,
            };
            Some(CreativeWorkPlan { author, creator: Some(creator) })
        },
        _ => None,
    }
}

/// The flat manifest attribute that a selector sets directly, always to the
/// raw, unescaped payload.
#[derive(Clone, Copy, Debug, PartialEq, Eq, Structural)]
pub enum FlatTarget {
    /// The manifest title.
    Title,
    /// The claim-generator record.
    ClaimGenerator,
    /// The manifest label; the signing collaborator validates it as a GUID.
    Label,
    /// The asset format; may be recomputed by the signing collaborator.
    Format,
    /// The vendor attribute.
    Vendor,
    /// The instance identifier; may be regenerated by the signing
    /// collaborator.
    InstanceId,
}

/// Which flat attribute a selector mutates; `None` for the selectors whose
/// whole effect is an added assertion or text substitution.
pub open spec fn spec_flat_target(field: FieldSelector) -> Option<FlatTarget> {
    match field {
        FieldSelector::Title => Some(FlatTarget::Title),
        FieldSelector::ClaimGenerator => Some(FlatTarget::ClaimGenerator),
        FieldSelector::Label => Some(FlatTarget::Label),
        FieldSelector::Format => Some(FlatTarget::Format),
        FieldSelector::Vendor => Some(FlatTarget::Vendor),
        FieldSelector::InstanceId => Some(FlatTarget::InstanceId),
        FieldSelector::Author => None,
        FieldSelector::PersonIdentifier => None,
        FieldSelector::Regex => None,
    }
}

/// The flat attribute to set for this selector, if any.
pub fn flat_target(field: FieldSelector) -> (r: Option<FlatTarget>)
    ensures
        r == spec_flat_target(field),
{
    match field {
        FieldSelector::Title => Some(FlatTarget::Title),
        FieldSelector::ClaimGenerator => Some(FlatTarget::ClaimGenerator),
        FieldSelector::Label => Some(FlatTarget::Label),
        FieldSelector::Format => Some(FlatTarget::Format),
        FieldSelector::Vendor => Some(FlatTarget::Vendor),
        FieldSelector::InstanceId => Some(FlatTarget::InstanceId),
        _ => None,
    }
}

} // verus!
