//! The closed set of mutation targets and their command-line tokens.

use vstd::prelude::*;
use crate::strutil::str_eq;

verus! {

/// The manifest field that a mutation targets, or regex mode, which
/// substitutes a sentinel token anywhere in the definition text.
#[derive(Clone, Copy, Debug, PartialEq, Eq, Structural)]
pub enum FieldSelector {
    Author,
    Title,
    Format,
    Label,
    Vendor,
    PersonIdentifier,
    InstanceId,
    ClaimGenerator,
    Regex,
}

/// The token that names each selector on the command line; it is also the
/// first part of every output file name.
pub open spec fn spec_field_token(f: FieldSelector) -> Seq<char> {
    match f {
        FieldSelector::Author => "author"@,
        FieldSelector::Title => "title"@,
        FieldSelector::Format => "format"@,
        FieldSelector::Label => "label"@,
        FieldSelector::Vendor => "vendor"@,
        FieldSelector::PersonIdentifier => "person_identifier"@,
        FieldSelector::InstanceId => "instance_id"@,
        FieldSelector::ClaimGenerator => "claim_generator"@,
        FieldSelector::Regex => "regex"@,
    }
}

/// The selector's token.
pub fn field_token(f: FieldSelector) -> (r: &'static str)
    ensures
        r@ == spec_field_token(f),
{
    match f {
        FieldSelector::Author => "author",
        FieldSelector::Title => "title",
        FieldSelector::Format => "format",
        FieldSelector::Label => "label",
        FieldSelector::Vendor => "vendor",
        FieldSelector::PersonIdentifier => "person_identifier",
        FieldSelector::InstanceId => "instance_id",
        FieldSelector::ClaimGenerator => "claim_generator",
        FieldSelector::Regex => "regex",
    }
}

/// Which selector a command-line token names; `None` exactly on
/// unrecognized tokens.
pub open spec fn spec_parse_field(s: Seq<char>) -> Option<FieldSelector> {
    if s == "author"@ {
        Some(FieldSelector::Author)
    } else if s == "title"@ {
        Some(FieldSelector::Title)
    } else if s == "format"@ {
        Some(FieldSelector::Format)
    } else if s == "label"@ {
        Some(FieldSelector::Label)
    } else if s == "vendor"@ {
        Some(FieldSelector::Vendor)
    } else if s == "person_identifier"@ {
        Some(FieldSelector::PersonIdentifier)
    } else if s == "instance_id"@ {
        Some(FieldSelector::InstanceId)
    } else if s == "claim_generator"@ {
        Some(FieldSelector::ClaimGenerator)
    } else if s == "regex"@ {
        Some(FieldSelector::Regex)
    } else {
        None
    }
}

/// Parses a command-line selector token. A run must be aborted before any
/// mutation when this returns `None`.
pub fn parse_field(s: &str) -> (r: Option<FieldSelector>)
    ensures
        r == spec_parse_field(s@),
{
    if str_eq(s, "author") {
        Some(FieldSelector::Author)
    } else if str_eq(s, "title") {
        Some(FieldSelector::Title)
    } else if str_eq(s, "format") {
        Some(FieldSelector::Format)
    } else if str_eq(s, "label") {
        Some(FieldSelector::Label)
    } else if str_eq(s, "vendor") {
        Some(FieldSelector::Vendor)
    } else if str_eq(s, "person_identifier") {
        Some(FieldSelector::PersonIdentifier)
    } else if str_eq(s, "instance_id") {
        Some(FieldSelector::InstanceId)
    } else if str_eq(s, "claim_generator") {
        Some(FieldSelector::ClaimGenerator)
    } else if str_eq(s, "regex") {
        Some(FieldSelector::Regex)
    } else {
        None
    }
}

/// Selectors whose value the signing collaborator may recompute or ignore
/// at signing time; a warning must be surfaced to the operator when one of
/// them is used.
pub fn field_warning_needed(f: FieldSelector) -> (b: bool)
    ensures
        b == (f == FieldSelector::Format || f == FieldSelector::InstanceId),
{
    match f {
        FieldSelector::Format => true,
        FieldSelector::InstanceId => true,
        _ => false,
    }
}

} // verus!
