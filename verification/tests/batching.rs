use c2pa_attacks::batch::{choose_parent, plan_overwrite, BatchState, OverwritePlan, ParentPlan};

#[test]
fn a_failed_middle_line_leaves_the_other_lines_intact() {
    // a corpus of three lines where line 2 fails: 2 successes, 1 failure,
    // every index consumed exactly once
    let mut state = BatchState::new();
    state.record(true);
    state.record(false);
    state.record(true);
    assert_eq!(state.next_index, 3);
    assert_eq!(state.succeeded, 2);
    assert_eq!(state.failed, 1);
}

#[test]
fn indices_advance_on_failure_too() {
    let mut state = BatchState::new();
    assert_eq!(state.next_index, 0);
    state.record(false);
    assert_eq!(state.next_index, 1);
    state.record(false);
    assert_eq!(state.next_index, 2);
    assert_eq!(state.succeeded, 0);
    assert_eq!(state.failed, 2);
}

#[test]
fn explicit_parent_overrides_source_linkage() {
    assert_eq!(choose_parent(true, true, false), ParentPlan::ExplicitParent);
    assert_eq!(choose_parent(true, false, true), ParentPlan::ExplicitParent);
}

#[test]
fn source_with_manifest_becomes_parent_unless_fragmented() {
    assert_eq!(choose_parent(false, true, false), ParentPlan::SourceAsset);
    assert_eq!(choose_parent(false, true, true), ParentPlan::NoParent);
    assert_eq!(choose_parent(false, false, false), ParentPlan::NoParent);
}

#[test]
fn existing_destination_needs_force() {
    assert_eq!(plan_overwrite(false, false), OverwritePlan::WriteFresh);
    assert_eq!(plan_overwrite(false, true), OverwritePlan::WriteFresh);
    assert_eq!(plan_overwrite(true, true), OverwritePlan::RemoveThenWrite);
    assert_eq!(plan_overwrite(true, false), OverwritePlan::RejectLine);
}
