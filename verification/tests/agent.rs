use dotman::agent::{
    append_to_section, check_state_consistency, compare_expected_verification,
    expected_verification_commands, format_phase, next_phase, normalize_command,
    parse_status_for_update,
    parse_roadmap, set_section_body, validate_handoff_structure, validate_plan_structure,
    validate_spec_structure, AgentState, ArtifactStatus, Phase, Priority, RoadmapItem,
    RoadmapStatus, VerificationEntry, VerificationResult, WorkKind,
};

fn all_artifacts() -> ArtifactStatus {
    ArtifactStatus { spec_exists: true, plan_exists: true, handoff_exists: true }
}

#[test]
fn phase_ahead_of_roadmap_fails_for_roadmap_work() {
    let state = AgentState {
        schema_version: 1,
        current_epic: "P0 - Atomic Directory Install".to_string(),
        phase: Phase::InProgress,
        locked: true,
        work_kind: WorkKind::Roadmap,
        exception_reason: String::new(),
        spec: "docs/superpowers/specs/atomic-design.md".to_string(),
        plan: "docs/superpowers/plans/atomic.md".to_string(),
        current_handoff: "docs/superpowers/agent/current-handoff.md".to_string(),
        last_handoff: String::new(),
        verification: Vec::new(),
    };
    let item = RoadmapItem {
        title: "P0 - Atomic Directory Install".to_string(),
        priority: Priority::P0,
        status: RoadmapStatus::Specified,
        spec: Some("docs/superpowers/specs/atomic-design.md".to_string()),
        plan: None,
        dependencies: Vec::new(),
    };

    let artifacts = all_artifacts();
    let report = check_state_consistency(&state, &vec![item], &artifacts);
    assert!(report.errors.iter().any(|err| err.contains("AGENT_PHASE_AHEAD")));
}

#[test]
fn missing_expected_verification_is_a_warning_before_finish() {
    let report = compare_expected_verification(
        &vec!["cargo test".to_string(), "make check".to_string()],
        &vec![VerificationEntry {
            command: "cargo test".to_string(),
            result: VerificationResult::Passed,
            summary: "passed".to_string(),
            recorded_at: "2026-05-15".to_string(),
        }],
    );
    assert_eq!(report.errors.len(), 0);
    assert!(report.warnings.iter().any(|warn| warn.contains("make check")));
}

#[test]
fn unfinished_harness_blocks_other_roadmap_implementation_work() {
    let state = AgentState {
        schema_version: 1,
        current_epic: "P0 - Atomic Directory Install".to_string(),
        phase: Phase::InProgress,
        locked: true,
        work_kind: WorkKind::Roadmap,
        exception_reason: String::new(),
        spec: "docs/superpowers/specs/atomic-directory-install-design.md".to_string(),
        plan: "docs/superpowers/plans/atomic-directory-install.md".to_string(),
        current_handoff: "docs/superpowers/agent/current-handoff.md".to_string(),
        last_handoff: String::new(),
        verification: Vec::new(),
    };
    let items = vec![
        RoadmapItem {
            title: "P0 - Roadmap Agent Harness".to_string(),
            priority: Priority::P0,
            status: RoadmapStatus::Specified,
            spec: Some(
                "docs/superpowers/specs/2026-05-14-roadmap-agent-harness-design.md".to_string(),
            ),
            plan: None,
            dependencies: Vec::new(),
        },
        RoadmapItem {
            title: "P0 - Atomic Directory Install".to_string(),
            priority: Priority::P0,
            status: RoadmapStatus::InProgress,
            spec: Some("docs/superpowers/specs/atomic-directory-install-design.md".to_string()),
            plan: Some("docs/superpowers/plans/atomic-directory-install.md".to_string()),
            dependencies: Vec::new(),
        },
    ];

    let report = check_state_consistency(&state, &items, &all_artifacts());
    assert!(report.errors.iter().any(|err| {
        err.contains("P0 - Roadmap Agent Harness") && err.contains("blocks implementation work")
    }));
}

#[test]
fn structural_quality_checks_require_core_spec_and_plan_sections() {
    let spec_report = validate_spec_structure("# Spec\n\n## Goal\n\nBuild it.\n");
    assert!(spec_report.errors.iter().any(|err| err.contains("AGENT_MISSING_SPEC_SECTION")));

    let plan_report =
        validate_plan_structure("# Plan\n\n## Verification Commands\n\n- `cargo test`\n");
    assert!(plan_report.errors.iter().any(|err| err.contains("AGENT_MISSING_PLAN_SECTION")));
}

#[test]
fn plan_structure_rejects_heading_only_plan_without_execution_details() {
    let plan_report = validate_plan_structure(
        r#"# Roadmap Agent Harness Implementation Plan

## Existing Code Map

## Task 1: Placeholder

## Verification Commands

## Expected Outcomes
"#,
    );

    assert!(plan_report.errors.iter().any(|err| err.contains("AGENT_MISSING_PLAN_SECTION")));
}

fn item_with(status: RoadmapStatus) -> RoadmapItem {
    RoadmapItem {
        title: "P0 - Test Epic".to_string(),
        priority: Priority::P0,
        status,
        spec: Some("docs/superpowers/specs/test-design.md".to_string()),
        plan: Some("docs/superpowers/plans/test.md".to_string()),
        dependencies: Vec::new(),
    }
}

fn state_with(phase: Phase, wk: WorkKind) -> AgentState {
    AgentState {
        schema_version: 1,
        current_epic: "P0 - Test Epic".to_string(),
        phase,
        locked: true,
        work_kind: wk,
        exception_reason: String::new(),
        spec: "docs/superpowers/specs/test-design.md".to_string(),
        plan: "docs/superpowers/plans/test.md".to_string(),
        current_handoff: "docs/superpowers/agent/current-handoff.md".to_string(),
        last_handoff: String::new(),
        verification: Vec::new(),
    }
}

#[test]
fn severity_rules_match_spec_table() {
    let fail_cases = [
        (Phase::Specified, RoadmapStatus::Deferred),
        (Phase::InProgress, RoadmapStatus::Proposed),
        (Phase::InProgress, RoadmapStatus::Specified),
        (Phase::InProgress, RoadmapStatus::Planned),
        (Phase::Verifying, RoadmapStatus::Proposed),
        (Phase::Verifying, RoadmapStatus::Specified),
        (Phase::Verifying, RoadmapStatus::Planned),
        (Phase::Done, RoadmapStatus::Deferred),
    ];
    for (phase, rstatus) in &fail_cases {
        let report = check_state_consistency(
            &state_with(*phase, WorkKind::Roadmap),
            &vec![item_with(*rstatus)],
            &all_artifacts(),
        );
        assert!(
            report.errors.iter().any(|e| e.contains("AGENT_")),
            "expected failure for {:?} + {:?}",
            phase,
            rstatus
        );
    }
    let warn_report = check_state_consistency(
        &state_with(Phase::Specified, WorkKind::Roadmap),
        &vec![item_with(RoadmapStatus::InProgress)],
        &all_artifacts(),
    );
    assert!(warn_report.warnings.iter().any(|w| w.contains("roadmap ahead")));
    let pass_report = check_state_consistency(
        &state_with(Phase::Done, WorkKind::Roadmap),
        &vec![item_with(RoadmapStatus::Done)],
        &all_artifacts(),
    );
    assert!(pass_report.errors.is_empty());
}

#[test]
fn incomplete_handoff_error_code_is_stable() {
    let report = validate_handoff_structure(
        r#"# Agent Handoff

## Current Epic

P0 - Roadmap Agent Harness

## Phase

in_progress

## Exception Reason

- None.

## Completed

- Not recorded yet.
"#,
    );
    assert!(report.errors.iter().any(|err| err.contains("AGENT_HANDOFF_INCOMPLETE")));
}

#[test]
fn artifact_error_codes_are_stable() {
    let state = AgentState {
        schema_version: 1,
        current_epic: "P0 - Roadmap Agent Harness".to_string(),
        phase: Phase::InProgress,
        locked: true,
        work_kind: WorkKind::Roadmap,
        exception_reason: String::new(),
        spec: "docs/superpowers/specs/2026-05-14-roadmap-agent-harness-design.md".to_string(),
        plan: "docs/superpowers/plans/2026-05-14-roadmap-agent-harness.md".to_string(),
        current_handoff: "docs/superpowers/agent/current-handoff.md".to_string(),
        last_handoff: String::new(),
        verification: Vec::new(),
    };

    let item = RoadmapItem {
        title: "P0 - Roadmap Agent Harness".to_string(),
        priority: Priority::P0,
        status: RoadmapStatus::InProgress,
        spec: None,
        plan: None,
        dependencies: Vec::new(),
    };
    let artifacts = ArtifactStatus { spec_exists: false, plan_exists: false, handoff_exists: false };

    let report = check_state_consistency(&state, &vec![item], &artifacts);
    for code in [
        "AGENT_ROADMAP_SPEC_UNLINKED",
        "AGENT_ROADMAP_PLAN_UNLINKED",
        "AGENT_MISSING_SPEC",
        "AGENT_MISSING_PLAN",
        "AGENT_HANDOFF_MISSING",
    ] {
        assert!(report.errors.iter().any(|err| err.contains(code)), "missing {code}");
    }
}

#[test]
fn set_section_body_preserves_blank_line() {
    let input = "# Agent Handoff\n\n## Current Epic\n\nP0 - Test\n\n## Completed\n\n- Not recorded yet.\n\n## Next Step\n\nRecord the next concrete action.\n";
    let result = set_section_body(input, "Completed", "- Wrote implementation plan.").expect("set");
    assert!(result.contains("## Completed\n\n- Wrote implementation plan."), "got: {result:?}");
}

#[test]
fn parses_roadmap_items_with_spec_and_plan_links() {
    let roadmap = r#"
## Active Queue

### P0 - Roadmap Agent Harness

Status: in_progress
Category: automation

Spec:
`docs/superpowers/specs/2026-05-14-roadmap-agent-harness-design.md`

Plan:
`docs/superpowers/plans/2026-05-14-roadmap-agent-harness.md`

Depends on: P0 - Other

### P1 - Doctor Summary And Machine Output

Status: proposed
Category: observability
"#;

    let items = parse_roadmap(roadmap).expect("items");
    assert_eq!(items.len(), 2);
    assert_eq!(items[0].title, "P0 - Roadmap Agent Harness");
    assert_eq!(items[0].priority, Priority::P0);
    assert_eq!(items[0].status, RoadmapStatus::InProgress);
    assert_eq!(
        items[0].spec.as_deref(),
        Some("docs/superpowers/specs/2026-05-14-roadmap-agent-harness-design.md")
    );
    assert_eq!(
        items[0].plan.as_deref(),
        Some("docs/superpowers/plans/2026-05-14-roadmap-agent-harness.md")
    );
    assert_eq!(items[0].dependencies, vec!["P0 - Other"]);
}

#[test]
fn normalizes_command_whitespace() {
    assert_eq!(normalize_command("  cargo   test   agent_check  "), "cargo test agent_check");
}

#[test]
fn parses_next_queue_section() {
    let roadmap = r#"
## Next Queue

### P0 - Roadmap Refresh And Agent Queue Reset

Status: proposed
Category: governance

### P2 - Manifest Schema Migration Tool

Status: proposed
Category: maintainability
"#;

    let items = parse_roadmap(roadmap).expect("items");
    assert_eq!(items.len(), 2);
    assert_eq!(items[0].title, "P0 - Roadmap Refresh And Agent Queue Reset");
    assert_eq!(items[0].priority, Priority::P0);
    assert_eq!(items[0].status, RoadmapStatus::Proposed);
    assert_eq!(items[1].title, "P2 - Manifest Schema Migration Tool");
    assert_eq!(items[1].priority, Priority::P2);
}

#[test]
fn phases_never_move_backward_for_roadmap_work() {
    assert!(next_phase(Phase::Planned, Phase::InProgress, &WorkKind::Roadmap).is_ok());
    assert!(next_phase(Phase::Verifying, Phase::Planned, &WorkKind::Roadmap).is_err());
}

#[test]
fn append_to_section_replaces_placeholder_or_appends() {
    let md = "# H\n## Done\nNot recorded yet.\n## Next\nstep one\n";
    assert_eq!(
        append_to_section(md, "Done", "- item").unwrap(),
        "# H\n## Done\n- item\n## Next\nstep one\n"
    );
    assert_eq!(
        append_to_section(md, "Next", "step two").unwrap(),
        "# H\n## Done\nNot recorded yet.\n## Next\nstep one\n\nstep two"
    );
    assert_eq!(append_to_section(md, "Risks", "x").unwrap_err(), "handoff section not found: Risks");
}

#[test]
fn verification_commands_come_from_their_section() {
    let plan = "# Plan\n## Verification Commands\n- `cargo   test`\n- `cargo clippy` extra\nnot a cmd\n## Next\n- `ignored`\n";
    assert_eq!(expected_verification_commands(plan), vec!["cargo test".to_string(), "cargo clippy".to_string()]);
    assert!(expected_verification_commands("- `x`\n").is_empty());
}

#[test]
fn phase_names_and_status_values() {
    assert_eq!(format_phase(&Phase::InProgress), "in_progress");
    assert_eq!(format_phase(&Phase::Uninitialized), "uninitialized");
    assert_eq!(parse_status_for_update("deferred"), Ok("deferred".to_string()));
    assert_eq!(parse_status_for_update("bogus"), Err("invalid roadmap status: bogus".to_string()));
}
