//! The signing collaborator's trust and verification settings, computed
//! once per run from the resources the operator supplied.
//!
//! Each setting is a small JSON text: a fixed template with the loaded
//! resource data spliced in as a JSON string literal. Loading the resources
//! (from a file or over the network) and handing the settings to the
//! signing collaborator stay outside the library.

use vstd::prelude::*;
use crate::jsonio::json_quoted;
use crate::jsonio::quote_json_string;
use crate::textsub::replace_all;
use crate::textsub::replace_token;

verus! {

/// The three trust resources the signing collaborator accepts.
#[derive(Clone, Copy, Debug, PartialEq, Eq, Structural)]
pub enum TrustKind {
    /// Trust anchors in PEM format.
    Anchors,
    /// Specific signing certificates to trust implicitly.
    AllowedList,
    /// Configured extended-key-usage policy.
    PolicyConfig,
}

/// The setting template for each trust resource; `replacement_val` is the
/// splice point.
pub open spec fn spec_trust_template(k: TrustKind) -> Seq<char> {
    match k {
        TrustKind::Anchors => "{\"trust\": { \"trust_anchors\": replacement_val } }"@,
        TrustKind::AllowedList => "{\"trust\": { \"allowed_list\": replacement_val } }"@,
        TrustKind::PolicyConfig => "{\"trust\": { \"trust_config\": replacement_val } }"@,
    }
}

fn trust_template(k: TrustKind) -> (r: &'static str)
    ensures
        r@ == spec_trust_template(k),
{
    match k {
        TrustKind::Anchors => "{\"trust\": { \"trust_anchors\": replacement_val } }",
        TrustKind::AllowedList => "{\"trust\": { \"allowed_list\": replacement_val } }",
        TrustKind::PolicyConfig => "{\"trust\": { \"trust_config\": replacement_val } }",
    }
}

/// One trust setting: the template for the kind, with the loaded resource
/// data spliced in as a quoted JSON string.
pub open spec fn spec_trust_setting(k: TrustKind, data: Seq<char>) -> Seq<char> {
    replace_all(spec_trust_template(k), "replacement_val"@, json_quoted(data))
}

/// Renders one trust setting from the loaded resource data.
pub fn trust_setting(kind: TrustKind, data: &str) -> (r: String)
    ensures
        r@ == spec_trust_setting(kind, data@),
{
    proof {
        reveal_strlit("replacement_val");
    }
    let quoted = quote_json_string(data);
    replace_token(trust_template(kind), "replacement_val", quoted.as_str())
}

/// The switch that turns trust checking on exactly when some trust resource
/// was supplied.
pub open spec fn spec_verify_trust_setting(enabled: bool) -> Seq<char> {
    if enabled {
        "{\"verify\": { \"verify_trust\": true} }"@
    } else {
        "{\"verify\": { \"verify_trust\": false} }"@
    }
}

/// Renders the trust-checking switch.
pub fn verify_trust_setting(enabled: bool) -> (r: &'static str)
    ensures
        r@ == spec_verify_trust_setting(enabled),
{
    if enabled {
        "{\"verify\": { \"verify_trust\": true} }"
    } else {
        "{\"verify\": { \"verify_trust\": false} }"
    }
}

/// The switch for validating the signature right after signing.
pub open spec fn spec_verify_after_sign_setting(enabled: bool) -> Seq<char> {
    replace_all(
        "{\"verify\": { \"verify_after_sign\": replacement_val } }"@,
        "replacement_val"@,
        if enabled {
            "true"@
        } else {
            "false"@
        },
    )
}

/// Renders the verify-after-sign switch.
pub fn verify_after_sign_setting(enabled: bool) -> (r: String)
    ensures
        r@ == spec_verify_after_sign_setting(enabled),
{
    proof {
        reveal_strlit("replacement_val");
    }
    let flag = if enabled {
        "true"
    } else {
        "false"
    };
    replace_token(
        "{\"verify\": { \"verify_after_sign\": replacement_val } }",
        "replacement_val",
        flag,
    )
}

/// The whole settings sequence for one run: one setting per supplied trust
/// resource in a fixed order, then the trust-checking switch — on exactly
/// when some resource was supplied — then the verify-after-sign switch.
pub open spec fn spec_settings_plan(
    anchors: Option<Seq<char>>,
    allowed: Option<Seq<char>>,
    policy: Option<Seq<char>>,
    verify_after_sign: bool,
) -> Seq<Seq<char>> {
    let trust_part = (match anchors {
        Some(d) => seq![spec_trust_setting(TrustKind::Anchors, d)],
        None => Seq::empty(),
    }) + (match allowed {
        Some(d) => seq![spec_trust_setting(TrustKind::AllowedList, d)],
        None => Seq::empty(),
    }) + (match policy {
        Some(d) => seq![spec_trust_setting(TrustKind::PolicyConfig, d)],
        None => Seq::empty(),
    });
    trust_part + seq![
        spec_verify_trust_setting(anchors is Some || allowed is Some || policy is Some),
        spec_verify_after_sign_setting(verify_after_sign),
    ]
}

/// Computes, once per run, every setting to hand to the signing
/// collaborator, in order, from the already-loaded trust resource data.
pub fn plan_settings(
    anchors: Option<&str>,
    allowed: Option<&str>,
    policy: Option<&str>,
    verify_after_sign: bool,
) -> (r: Vec<String>)
    ensures
        r@.map_values(|s: String| s@) == spec_settings_plan(
            match anchors {
                Some(d) => Some(d@),
                None => None,
            },
            match allowed {
                Some(d) => Some(d@),
                None => None,
            },
            match policy {
                Some(d) => Some(d@),
                None => None,
            },
            verify_after_sign,
        ),
{
    let mut out: Vec<String> = Vec::new();
    let mut enabled = false;
    if let Some(data) = anchors {
        out.push(trust_setting(TrustKind::Anchors, data));
        enabled = true;
    }
    if let Some(data) = allowed {
        out.push(trust_setting(TrustKind::AllowedList, data));
        enabled = true;
    }
    if let Some(data) = policy {
        out.push(trust_setting(TrustKind::PolicyConfig, data));
        enabled = true;
    }
    out.push(verify_trust_setting(enabled).to_owned());
    out.push(verify_after_sign_setting(verify_after_sign));
    proof {
        assert(out@.map_values(|s: String| s@) =~= spec_settings_plan(
            match anchors {
                Some(d) => Some(d@),
                None => None,
            },
            match allowed {
                Some(d) => Some(d@),
                None => None,
            },
            match policy {
                Some(d) => Some(d@),
                None => None,
            },
            verify_after_sign,
        ));
    }
    out
}

} // verus!
