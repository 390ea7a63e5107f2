use filesense::plan::{
    plan_moves, validate_plan, OrganizationPlan, PlanEntry, PlanError, PlanField, PlanItem,
    PlanWarning,
};

fn text_entry(name: &str, value: &str) -> PlanEntry {
    PlanEntry { name: name.to_string(), field: PlanField::Text(value.to_string()) }
}

fn list_entry(name: &str, paths: &[Option<&str>]) -> PlanEntry {
    let items = paths
        .iter()
        .map(|p| PlanItem { path: p.map(|s| s.to_string()) })
        .collect();
    PlanEntry { name: name.to_string(), field: PlanField::List(items) }
}

#[test]
fn non_object_plan_is_rejected() {
    assert_eq!(validate_plan(&OrganizationPlan::NotObject).err(), Some(PlanError::NotAnObject));
}

#[test]
fn plan_without_target_root_is_rejected() {
    let plan = OrganizationPlan::Object(vec![list_entry("Documents", &[Some("/a/b.txt")])]);
    assert_eq!(validate_plan(&plan).err(), Some(PlanError::MissingTargetRoot));
}

#[test]
fn non_text_target_root_is_rejected() {
    let plan = OrganizationPlan::Object(vec![list_entry("target_root", &[])]);
    assert_eq!(validate_plan(&plan).err(), Some(PlanError::MissingTargetRoot));
}

#[test]
fn valid_plan_keeps_lists_and_warns_on_the_rest() {
    let plan = OrganizationPlan::Object(vec![
        text_entry("target_root", "/dest"),
        list_entry("Documents", &[Some("/src/a.txt"), None, Some("/src/b.txt")]),
        text_entry("note", "extraneous"),
    ]);
    let valid = validate_plan(&plan).ok().expect("plan must validate");
    assert_eq!(valid.target_root, "/dest");
    assert_eq!(valid.categories.len(), 1);
    assert_eq!(valid.categories[0].name, "Documents");
    assert_eq!(valid.categories[0].paths, vec!["/src/a.txt", "/src/b.txt"]);
    assert_eq!(valid.warnings.len(), 2);
    assert!(matches!(&valid.warnings[0], PlanWarning::ItemWithoutPath { category } if category == "Documents"));
    assert!(matches!(&valid.warnings[1], PlanWarning::FieldNotAList { name } if name == "note"));
}

#[test]
fn planned_moves_join_target_category_and_base_name() {
    let plan = OrganizationPlan::Object(vec![
        text_entry("target_root", "/dest"),
        list_entry("Documents", &[Some("/src/a.txt"), Some("/src/sub/b.txt")]),
        list_entry("Images", &[Some("pic.jpg")]),
    ]);
    let valid = validate_plan(&plan).ok().expect("plan must validate");
    let moves = plan_moves(&valid);
    assert_eq!(moves.dirs.len(), 2);
    assert_eq!(moves.dirs[0].dir, "/dest/Documents");
    assert_eq!(moves.dirs[0].moves.len(), 2);
    assert_eq!(moves.dirs[0].moves[0].from, "/src/a.txt");
    assert_eq!(moves.dirs[0].moves[0].to, "/dest/Documents/a.txt");
    assert_eq!(moves.dirs[0].moves[1].from, "/src/sub/b.txt");
    assert_eq!(moves.dirs[0].moves[1].to, "/dest/Documents/b.txt");
    assert_eq!(moves.dirs[1].dir, "/dest/Images");
    assert_eq!(moves.dirs[1].moves[0].from, "pic.jpg");
    assert_eq!(moves.dirs[1].moves[0].to, "/dest/Images/pic.jpg");
    assert!(moves.warnings.is_empty());
}

#[test]
fn target_root_with_trailing_slash_is_not_doubled() {
    let plan = OrganizationPlan::Object(vec![
        text_entry("target_root", "/dest/"),
        list_entry("Docs", &[Some("/src/a.txt")]),
    ]);
    let valid = validate_plan(&plan).ok().expect("plan must validate");
    let moves = plan_moves(&valid);
    assert_eq!(moves.dirs[0].dir, "/dest/Docs");
    assert_eq!(moves.dirs[0].moves[0].to, "/dest/Docs/a.txt");
}

#[test]
fn path_without_base_name_is_skipped_with_warning() {
    let plan = OrganizationPlan::Object(vec![
        text_entry("target_root", "/dest"),
        list_entry("Docs", &[Some("/src/dir/"), Some("/src/ok.txt")]),
    ]);
    let valid = validate_plan(&plan).ok().expect("plan must validate");
    let moves = plan_moves(&valid);
    assert_eq!(moves.dirs[0].moves.len(), 1);
    assert_eq!(moves.dirs[0].moves[0].from, "/src/ok.txt");
    assert_eq!(moves.warnings.len(), 1);
    assert!(matches!(&moves.warnings[0], PlanWarning::NoBaseName { path } if path == "/src/dir/"));
}

#[test]
fn duplicate_destination_is_skipped_with_warning() {
    let plan = OrganizationPlan::Object(vec![
        text_entry("target_root", "/dest"),
        list_entry("Docs", &[Some("/one/a.txt"), Some("/two/a.txt")]),
    ]);
    let valid = validate_plan(&plan).ok().expect("plan must validate");
    let moves = plan_moves(&valid);
    assert_eq!(moves.dirs[0].moves.len(), 1);
    assert_eq!(moves.dirs[0].moves[0].from, "/one/a.txt");
    assert_eq!(moves.warnings.len(), 1);
    assert!(matches!(
        &moves.warnings[0],
        PlanWarning::DuplicateDestination { path } if path == "/dest/Docs/a.txt"
    ));
}

#[test]
fn first_target_root_field_wins() {
    let plan = OrganizationPlan::Object(vec![
        text_entry("target_root", "/first"),
        text_entry("target_root", "/second"),
    ]);
    let valid = validate_plan(&plan).ok().expect("plan must validate");
    assert_eq!(valid.target_root, "/first");
}
