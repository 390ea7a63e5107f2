use filesense::moves::{
    collect_organize, organize_failure_message, organize_success_message, CategoryOutcome,
    OrganizeError,
};
use filesense::plan::{plan_moves, validate_plan, OrganizationPlan, PlanEntry, PlanField, PlanItem};
use filesense::undo::{collect_undo, plan_undo, undo_failure_message, undo_success_message};

fn two_move_plan() -> filesense::plan::MovePlan {
    let plan = OrganizationPlan::Object(vec![
        PlanEntry {
            name: "target_root".to_string(),
            field: PlanField::Text("/dest".to_string()),
        },
        PlanEntry {
            name: "Docs".to_string(),
            field: PlanField::List(vec![
                PlanItem { path: Some("/src/a.txt".to_string()) },
                PlanItem { path: Some("/src/b.txt".to_string()) },
            ]),
        },
    ]);
    let valid = validate_plan(&plan).ok().expect("plan must validate");
    plan_moves(&valid)
}

fn all_ok(moves: usize) -> CategoryOutcome {
    CategoryOutcome { dir_error: None, move_results: vec![None; moves] }
}

#[test]
fn clean_run_logs_every_move() {
    let mp = two_move_plan();
    let report = collect_organize(&mp, &vec![all_ok(2)]);
    assert!(report.is_success());
    assert_eq!(report.moved, 2);
    assert_eq!(report.log.len(), 2);
    assert_eq!(report.log[0].from, "/src/a.txt");
    assert_eq!(report.log[0].to, "/dest/Docs/a.txt");
    assert_eq!(report.log[1].from, "/src/b.txt");
    assert_eq!(report.log[1].to, "/dest/Docs/b.txt");
    assert_eq!(organize_success_message(report.moved), "✅ Organized 2 files successfully!");
}

#[test]
fn partial_failure_reports_count_and_failing_path() {
    let mp = two_move_plan();
    let outcome = CategoryOutcome {
        dir_error: None,
        move_results: vec![None, Some("permission denied".to_string())],
    };
    let report = collect_organize(&mp, &vec![outcome]);
    assert!(!report.is_success());
    assert_eq!(report.moved, 1);
    assert_eq!(report.log.len(), 1);
    assert_eq!(report.log[0].from, "/src/a.txt");
    assert_eq!(report.errors.len(), 1);
    assert!(matches!(
        &report.errors[0],
        OrganizeError::MoveFile { from, detail } if from == "/src/b.txt" && detail == "permission denied"
    ));
    let message = organize_failure_message(&report);
    assert!(message.contains("Moved 1 files, but some errors occurred:"));
    assert!(message.contains("/src/b.txt"));
    assert!(message.contains("permission denied"));
    assert_eq!(
        message,
        "Moved 1 files, but some errors occurred:\nFailed to move /src/b.txt: permission denied"
    );
}

#[test]
fn failed_directory_creation_skips_the_category() {
    let mp = two_move_plan();
    let outcome = CategoryOutcome {
        dir_error: Some("read-only filesystem".to_string()),
        move_results: Vec::new(),
    };
    let report = collect_organize(&mp, &vec![outcome]);
    assert_eq!(report.moved, 0);
    assert!(report.log.is_empty());
    assert_eq!(report.errors.len(), 1);
    assert!(matches!(
        &report.errors[0],
        OrganizeError::CreateDirectory { dir, detail }
            if dir == "/dest/Docs" && detail == "read-only filesystem"
    ));
    let message = organize_failure_message(&report);
    assert!(message.contains("Failed to create directory /dest/Docs: read-only filesystem"));
}

#[test]
fn round_trip_restores_every_file() {
    let mp = two_move_plan();
    let report = collect_organize(&mp, &vec![all_ok(2)]);
    assert_eq!(report.log.len(), 2);

    let undo_plan = plan_undo(&report.log);
    assert_eq!(undo_plan.reversals.len(), 2);
    assert_eq!(undo_plan.reversals[0].from, "/dest/Docs/a.txt");
    assert_eq!(undo_plan.reversals[0].to, "/src/a.txt");
    assert_eq!(undo_plan.reversals[1].from, "/dest/Docs/b.txt");
    assert_eq!(undo_plan.reversals[1].to, "/src/b.txt");
    assert_eq!(undo_plan.cleanup_dirs, vec!["/dest/Docs"]);

    let undo_report = collect_undo(&report.log, &vec![None, None]);
    assert!(undo_report.is_success());
    assert_eq!(undo_report.restored, 2);
    assert_eq!(
        undo_success_message(undo_report.restored),
        "✅ Undo successful! Restored 2 files."
    );
}

#[test]
fn partial_undo_failure_reports_count_and_path() {
    let mp = two_move_plan();
    let report = collect_organize(&mp, &vec![all_ok(2)]);
    let results = vec![Some("file is gone".to_string()), None];
    let undo_report = collect_undo(&report.log, &results);
    assert!(!undo_report.is_success());
    assert_eq!(undo_report.restored, 1);
    assert_eq!(undo_report.errors.len(), 1);
    assert_eq!(undo_report.errors[0].path, "/dest/Docs/a.txt");
    let message = undo_failure_message(&undo_report);
    assert!(message.contains("Restored 1 files, but some errors occurred:"));
    assert!(message.contains("Failed to move back /dest/Docs/a.txt: file is gone"));
}

#[test]
fn messages_render_multi_digit_counts() {
    assert_eq!(organize_success_message(120), "✅ Organized 120 files successfully!");
    assert_eq!(organize_success_message(0), "✅ Organized 0 files successfully!");
    assert_eq!(undo_success_message(305), "✅ Undo successful! Restored 305 files.");
}

#[test]
fn undo_cleanup_dirs_are_distinct_parents() {
    let log = vec![
        filesense::moves::MoveRecord {
            from: "/s/a.txt".to_string(),
            to: "/d/Docs/a.txt".to_string(),
        },
        filesense::moves::MoveRecord {
            from: "/s/b.txt".to_string(),
            to: "/d/Docs/b.txt".to_string(),
        },
        filesense::moves::MoveRecord {
            from: "/s/c.jpg".to_string(),
            to: "/d/Images/c.jpg".to_string(),
        },
        filesense::moves::MoveRecord { from: "/s/plain".to_string(), to: "plain".to_string() },
    ];
    let undo_plan = plan_undo(&log);
    assert_eq!(undo_plan.cleanup_dirs, vec!["/d/Docs", "/d/Images"]);
}
