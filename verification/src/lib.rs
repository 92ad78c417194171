//! Adversarial test-asset generation for provenance manifests.
//!
//! Given a baseline manifest definition and a corpus of attack payload
//! strings, this library decides how each raw payload is escaped, where it is
//! injected into the definition (a targeted manifest field or a free-form
//! sentinel token), which pre-existing assertions must be removed to avoid
//! conflicting authorship claims, and how the output artifacts are named and
//! isolated from each other. Signing, embedding and all file or network
//! traffic are left to the surrounding program.

pub mod batch;
pub mod escape;
pub mod fields;
pub mod filter;
pub mod jsonio;
pub mod mutate;
pub mod naming;
pub mod settings;
pub mod strutil;
pub mod synth;
pub mod textsub;
pub mod trust;
