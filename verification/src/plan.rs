//! Organization plans: validating the caller-supplied structured value
//! and computing the moves it asks for.
//!
//! The plan is a generic structured value: an object whose `target_root`
//! field names the destination root and whose other fields map category
//! names to lists of `{path}` entries. Validation is permissive, as an
//! explicit pass: a missing or non-text `target_root` (or a plan that is
//! no object) rejects the plan, while a category field that is not a
//! list, and a list item without a path, are skipped with a warning.
//!
//! Planning turns each category into a destination directory
//! (`target_root/category`) and each path into a move to that directory
//! under the path's base name. A path without a base name is skipped with
//! a warning. Collision policy: within a category, a move whose
//! destination repeats an earlier move's destination is skipped with a
//! warning, so the planned destinations of a category are pairwise
//! distinct; collisions with files already on disk are not probed here
//! and surface as the outcome of the caller's rename.

use crate::text::{base_name, contains_string, join_path, spec_base_name, spec_join, str_eq};
use vstd::prelude::*;

verus! {

/// One file entry of a plan category: the source path, when the entry
/// carried one.
pub struct PlanItem {
    pub path: Option<String>,
}

/// The value of one named field of the plan object: text, a list of file
/// entries, or anything else.
pub enum PlanField {
    Text(String),
    List(Vec<PlanItem>),
    OtherShape,
}

/// One named field of the plan object.
pub struct PlanEntry {
    pub name: String,
    pub field: PlanField,
}

/// The caller's organization plan: an object of named fields, or not an
/// object at all.
pub enum OrganizationPlan {
    Object(Vec<PlanEntry>),
    NotObject,
}

/// Why a plan was rejected outright.
#[derive(Debug, PartialEq, Eq, Structural)]
pub enum PlanError {
    NotAnObject,
    MissingTargetRoot,
}

/// A skipped piece of the plan, reported rather than silently dropped.
#[derive(Debug)]
pub enum PlanWarning {
    FieldNotAList { name: String },
    ItemWithoutPath { category: String },
    NoBaseName { path: String },
    DuplicateDestination { path: String },
}

/// Mathematical image of a `PlanWarning`.
pub ghost enum WarningView {
    FieldNotAList { name: Seq<char> },
    ItemWithoutPath { category: Seq<char> },
    NoBaseName { path: Seq<char> },
    DuplicateDestination { path: Seq<char> },
}

/// One usable category of a validated plan.
pub struct CategoryFiles {
    pub name: String,
    pub paths: Vec<String>,
}

/// Mathematical image of a `CategoryFiles`.
pub ghost struct CategoryView {
    pub name: Seq<char>,
    pub paths: Seq<Seq<char>>,
}

/// The usable subset of a plan: the target root, the category file lists
/// in plan order, and the warnings for what was skipped.
pub struct ValidPlan {
    pub target_root: String,
    pub categories: Vec<CategoryFiles>,
    pub warnings: Vec<PlanWarning>,
}

pub open spec fn warning_view(w: PlanWarning) -> WarningView {
    match w {
        PlanWarning::FieldNotAList { name } => WarningView::FieldNotAList { name: name@ },
        PlanWarning::ItemWithoutPath { category } => WarningView::ItemWithoutPath {
            category: category@,
        },
        PlanWarning::NoBaseName { path } => WarningView::NoBaseName { path: path@ },
        PlanWarning::DuplicateDestination { path } => WarningView::DuplicateDestination {
            path: path@,
        },
    }
}

pub open spec fn warnings_view(ws: Seq<PlanWarning>) -> Seq<WarningView> {
    ws.map_values(|w: PlanWarning| warning_view(w))
}

pub open spec fn category_view(c: CategoryFiles) -> CategoryView {
    CategoryView { name: c.name@, paths: c.paths@.map_values(|p: String| p@) }
}

pub open spec fn categories_view(cs: Seq<CategoryFiles>) -> Seq<CategoryView> {
    cs.map_values(|c: CategoryFiles| category_view(c))
}

/// The target root the plan names: the first field called `target_root`,
/// provided it holds text.
pub open spec fn spec_target_root(es: Seq<PlanEntry>) -> Option<Seq<char>>
    decreases es.len(),
{
    if es.len() == 0 {
        None
    } else if es[0].name@ == "target_root"@ {
        match es[0].field {
            PlanField::Text(s) => Some(s@),
            _ => None,
        }
    } else {
        spec_target_root(es.drop_first())
    }
}

/// The paths of the items that carry one, in order.
pub open spec fn spec_item_paths(items: Seq<PlanItem>) -> Seq<Seq<char>>
    decreases items.len(),
{
    if items.len() == 0 {
        Seq::empty()
    } else {
        let rest = spec_item_paths(items.drop_last());
        match items.last().path {
            Some(p) => rest.push(p@),
            None => rest,
        }
    }
}

/// One warning per item without a path, in order.
pub open spec fn spec_item_warnings(items: Seq<PlanItem>, cat: Seq<char>) -> Seq<WarningView>
    decreases items.len(),
{
    if items.len() == 0 {
        Seq::empty()
    } else {
        let rest = spec_item_warnings(items.drop_last(), cat);
        match items.last().path {
            Some(_) => rest,
            None => rest.push(WarningView::ItemWithoutPath { category: cat }),
        }
    }
}

/// The usable categories of the plan object, in order: every field other
/// than `target_root` that holds a list, reduced to the item paths.
pub open spec fn spec_categories(es: Seq<PlanEntry>) -> Seq<CategoryView>
    decreases es.len(),
{
    if es.len() == 0 {
        Seq::empty()
    } else {
        let rest = spec_categories(es.drop_last());
        let e = es.last();
        if e.name@ == "target_root"@ {
            rest
        } else {
            match e.field {
                PlanField::List(items) => rest.push(
                    CategoryView { name: e.name@, paths: spec_item_paths(items@) },
                ),
                _ => rest,
            }
        }
    }
}

/// The warnings one plan field gives rise to.
pub open spec fn spec_entry_warnings(e: PlanEntry) -> Seq<WarningView> {
    if e.name@ == "target_root"@ {
        Seq::empty()
    } else {
        match e.field {
            PlanField::List(items) => spec_item_warnings(items@, e.name@),
            _ => seq![WarningView::FieldNotAList { name: e.name@ }],
        }
    }
}

/// The validation warnings of the plan object, in order.
pub open spec fn spec_validation_warnings(es: Seq<PlanEntry>) -> Seq<WarningView>
    decreases es.len(),
{
    if es.len() == 0 {
        Seq::empty()
    } else {
        spec_validation_warnings(es.drop_last()) + spec_entry_warnings(es.last())
    }
}

fn find_target_root(entries: &Vec<PlanEntry>) -> (r: Option<String>)
    ensures
        match r {
            Some(s) => spec_target_root(entries@) == Some(s@),
            None => spec_target_root(entries@) is None,
        },
{
    let n = entries.len();
    let mut i: usize = 0;
    proof {
        assert(entries@.skip(0) =~= entries@);
    }
    while i < n
        invariant
            i <= n,
            n == entries@.len(),
            spec_target_root(entries@) == spec_target_root(entries@.skip(i as int)),
        decreases n - i,
    {
        proof {
            assert(entries@.skip(i as int)[0] == entries@[i as int]);
            assert(entries@.skip(i as int).drop_first() =~= entries@.skip(i + 1));
        }
        if str_eq(entries[i].name.as_str(), "target_root") {
            match &entries[i].field {
                PlanField::Text(s) => {
                    return Some(s.clone());
                },
                _ => {
                    return None;
                },
            }
        }
        i = i + 1;
    }
    proof {
        assert(entries@.skip(n as int) =~= Seq::<PlanEntry>::empty());
    }
    None
}

/// Collects the paths of the items that carry one, and a warning for
/// each item that does not.
fn collect_item_paths(items: &Vec<PlanItem>, cat: &String) -> (r: (Vec<String>, Vec<PlanWarning>))
    ensures
        r.0@.map_values(|p: String| p@) == spec_item_paths(items@),
        warnings_view(r.1@) == spec_item_warnings(items@, cat@),
{
    let n = items.len();
    let mut paths: Vec<String> = Vec::new();
    let mut warns: Vec<PlanWarning> = Vec::new();
    let mut i: usize = 0;
    while i < n
        invariant
            i <= n,
            n == items@.len(),
            paths@.map_values(|p: String| p@) == spec_item_paths(items@.take(i as int)),
            warnings_view(warns@) == spec_item_warnings(items@.take(i as int), cat@),
        decreases n - i,
    {
        proof {
            assert(items@.take(i + 1).drop_last() =~= items@.take(i as int));
            assert(items@.take(i + 1).last() == items@[i as int]);
        }
        let ghost paths0 = paths@;
        let ghost warns0 = warns@;
        match &items[i].path {
            Some(p) => {
                paths.push(p.clone());
                proof {
                    assert(paths@.map_values(|p: String| p@) =~= paths0.map_values(
                        |p: String| p@,
                    ).push(items@[i as int].path->Some_0@));
                }
            },
            None => {
                warns.push(PlanWarning::ItemWithoutPath { category: cat.clone() });
                proof {
                    assert(warnings_view(warns@) =~= warnings_view(warns0).push(
                        WarningView::ItemWithoutPath { category: cat@ },
                    ));
                }
            },
        }
        i = i + 1;
    }
    proof {
        assert(items@.take(n as int) =~= items@);
    }
    (paths, warns)
}

/// Validates the caller's plan: rejects a non-object or a plan without a
/// text `target_root` field, and reduces the rest to the usable category
/// lists plus a warning for every skipped field or item.
pub fn validate_plan(plan: &OrganizationPlan) -> (r: Result<ValidPlan, PlanError>)
    ensures
        match plan {
            OrganizationPlan::NotObject => r == Err::<ValidPlan, PlanError>(PlanError::NotAnObject),
            OrganizationPlan::Object(es) => match spec_target_root(es@) {
                None => r == Err::<ValidPlan, PlanError>(PlanError::MissingTargetRoot),
                Some(t) => r is Ok && r->Ok_0.target_root@ == t && categories_view(
                    r->Ok_0.categories@,
                ) == spec_categories(es@) && warnings_view(r->Ok_0.warnings@)
                    == spec_validation_warnings(es@),
            },
        },
{
    let entries = match plan {
        OrganizationPlan::NotObject => {
            return Err(PlanError::NotAnObject);
        },
        OrganizationPlan::Object(es) => es,
    };
    let target_root = match find_target_root(entries) {
        Some(s) => s,
        None => {
            return Err(PlanError::MissingTargetRoot);
        },
    };
    let n = entries.len();
    let mut categories: Vec<CategoryFiles> = Vec::new();
    let mut warnings: Vec<PlanWarning> = Vec::new();
    let mut i: usize = 0;
    while i < n
        invariant
            i <= n,
            n == entries@.len(),
            categories_view(categories@) == spec_categories(entries@.take(i as int)),
            warnings_view(warnings@) == spec_validation_warnings(entries@.take(i as int)),
        decreases n - i,
    {
        proof {
            assert(entries@.take(i + 1).drop_last() =~= entries@.take(i as int));
            assert(entries@.take(i + 1).last() == entries@[i as int]);
        }
        let ghost cats0 = categories@;
        let ghost warns0 = warnings@;
        let e = &entries[i];
        if !str_eq(e.name.as_str(), "target_root") {
            match &e.field {
                PlanField::List(items) => {
                    let (paths, mut item_warns) = collect_item_paths(items, &e.name);
                    let ghost item_warns0 = item_warns@;
                    categories.push(CategoryFiles { name: e.name.clone(), paths });
                    warnings.append(&mut item_warns);
                    proof {
                        assert(categories_view(categories@) =~= categories_view(cats0).push(
                            CategoryView {
                                name: entries@[i as int].name@,
                                paths: spec_item_paths(
                                    entries@[i as int].field->List_0@,
                                ),
                            },
                        ));
                        assert(warnings_view(warnings@) =~= warnings_view(warns0)
                            + warnings_view(item_warns0));
                    }
                },
                _ => {
                    warnings.push(PlanWarning::FieldNotAList { name: e.name.clone() });
                    proof {
                        assert(warnings_view(warnings@) =~= warnings_view(warns0).push(
                            WarningView::FieldNotAList { name: entries@[i as int].name@ },
                        ));
                        assert(warnings_view(warns0).push(
                            WarningView::FieldNotAList { name: entries@[i as int].name@ },
                        ) =~= warnings_view(warns0) + spec_entry_warnings(entries@[i as int]));
                    }
                },
            }
        } else {
            proof {
                assert(spec_validation_warnings(entries@.take(i + 1)) =~= warnings_view(
                    warns0,
                ));
            }
        }
        i = i + 1;
    }
    proof {
        assert(entries@.take(n as int) =~= entries@);
    }
    Ok(ValidPlan { target_root, categories, warnings })
}

/// One planned rename.
pub struct PlannedMove {
    pub from: String,
    pub to: String,
}

/// The moves of one category, all into the same destination directory.
pub struct CategoryMoves {
    pub dir: String,
    pub moves: Vec<PlannedMove>,
}

/// Everything an organize run has to do, with the warnings planning
/// added.
pub struct MovePlan {
    pub dirs: Vec<CategoryMoves>,
    pub warnings: Vec<PlanWarning>,
}

/// Mathematical image of a `PlannedMove`.
pub ghost struct MoveView {
    pub from: Seq<char>,
    pub to: Seq<char>,
}

/// Mathematical image of a `CategoryMoves`.
pub ghost struct DirMovesView {
    pub dir: Seq<char>,
    pub moves: Seq<MoveView>,
}

pub open spec fn move_view(m: PlannedMove) -> MoveView {
    MoveView { from: m.from@, to: m.to@ }
}

pub open spec fn moves_view(ms: Seq<PlannedMove>) -> Seq<MoveView> {
    ms.map_values(|m: PlannedMove| move_view(m))
}

pub open spec fn dir_moves_view(d: CategoryMoves) -> DirMovesView {
    DirMovesView { dir: d.dir@, moves: moves_view(d.moves@) }
}

pub open spec fn dirs_view(ds: Seq<CategoryMoves>) -> Seq<DirMovesView> {
    ds.map_values(|d: CategoryMoves| dir_moves_view(d))
}

/// The moves of one category directory, walking the paths in order with
/// the set of destinations claimed so far: a path without a base name is
/// skipped with a warning, a destination already claimed is skipped with
/// a warning, and any other path becomes a move and claims its
/// destination. Yields the moves, the final claimed set, and the
/// warnings.
pub open spec fn spec_cat_moves(dir: Seq<char>, paths: Seq<Seq<char>>, seen: Set<Seq<char>>) -> (
    Seq<MoveView>,
    Set<Seq<char>>,
    Seq<WarningView>,
)
    decreases paths.len(),
{
    if paths.len() == 0 {
        (Seq::empty(), seen, Seq::empty())
    } else {
        let p = paths[0];
        match spec_base_name(p) {
            None => {
                let rest = spec_cat_moves(dir, paths.drop_first(), seen);
                (rest.0, rest.1, seq![WarningView::NoBaseName { path: p }] + rest.2)
            },
            Some(b) => {
                let to = spec_join(dir, b);
                if seen.contains(to) {
                    let rest = spec_cat_moves(dir, paths.drop_first(), seen);
                    (
                        rest.0,
                        rest.1,
                        seq![WarningView::DuplicateDestination { path: to }] + rest.2,
                    )
                } else {
                    let rest = spec_cat_moves(dir, paths.drop_first(), seen.insert(to));
                    (seq![MoveView { from: p, to }] + rest.0, rest.1, rest.2)
                }
            },
        }
    }
}

/// The directory and moves one validated category plans to.
pub open spec fn spec_dir_moves(target: Seq<char>, c: CategoryView) -> DirMovesView {
    DirMovesView {
        dir: spec_join(target, c.name),
        moves: spec_cat_moves(spec_join(target, c.name), c.paths, Set::empty()).0,
    }
}

/// The planned directories of a validated plan, in category order.
pub open spec fn spec_plan_dirs(target: Seq<char>, cats: Seq<CategoryView>) -> Seq<DirMovesView> {
    cats.map_values(|c: CategoryView| spec_dir_moves(target, c))
}

/// The planning warnings of a validated plan, in category order.
pub open spec fn spec_plan_warnings(target: Seq<char>, cats: Seq<CategoryView>) -> Seq<WarningView>
    decreases cats.len(),
{
    if cats.len() == 0 {
        Seq::empty()
    } else {
        spec_plan_warnings(target, cats.drop_last()) + spec_cat_moves(
            spec_join(target, cats.last().name),
            cats.last().paths,
            Set::empty(),
        ).2
    }
}

fn plan_category(dir: &String, paths: &Vec<String>) -> (r: (Vec<PlannedMove>, Vec<PlanWarning>))
    ensures
        moves_view(r.0@) == spec_cat_moves(
            dir@,
            paths@.map_values(|p: String| p@),
            Set::empty(),
        ).0,
        warnings_view(r.1@) == spec_cat_moves(
            dir@,
            paths@.map_values(|p: String| p@),
            Set::empty(),
        ).2,
        forall|k1: int, k2: int|
            0 <= k1 < k2 < r.0@.len() ==> (#[trigger] r.0@[k1]).to@ != (#[trigger] r.0@[k2]).to@,
{
    let ghost pview = paths@.map_values(|p: String| p@);
    let ghost full = spec_cat_moves(dir@, pview, Set::empty());
    let n = paths.len();
    let mut mv: Vec<PlannedMove> = Vec::new();
    let mut warns: Vec<PlanWarning> = Vec::new();
    let mut tos: Vec<String> = Vec::new();
    let ghost mut seen = Set::<Seq<char>>::empty();
    let mut i: usize = 0;
    proof {
        assert(pview.skip(0) =~= pview);
    }
    while i < n
        invariant
            i <= n,
            n == pview.len(),
            pview == paths@.map_values(|p: String| p@),
            full == spec_cat_moves(dir@, pview, Set::empty()),
            full.0 == moves_view(mv@) + spec_cat_moves(dir@, pview.skip(i as int), seen).0,
            full.2 == warnings_view(warns@) + spec_cat_moves(dir@, pview.skip(i as int), seen).2,
            forall|s: Seq<char>|
                seen.contains(s) <==> exists|k: int|
                    0 <= k < tos@.len() && (#[trigger] tos@[k])@ == s,
            forall|k: int| 0 <= k < mv@.len() ==> seen.contains((#[trigger] mv@[k]).to@),
            forall|k1: int, k2: int|
                0 <= k1 < k2 < mv@.len() ==> (#[trigger] mv@[k1]).to@ != (#[trigger] mv@[k2]).to@,
        decreases n - i,
    {
        proof {
            assert(pview.skip(i as int)[0] == pview[i as int]);
            assert(pview.skip(i as int).drop_first() =~= pview.skip(i + 1));
            assert(pview[i as int] == paths@[i as int]@);
        }
        let ghost mv0 = mv@;
        let ghost warns0 = warns@;
        let ghost rest = spec_cat_moves(dir@, pview.skip(i as int), seen);
        let p = &paths[i];
        match base_name(p.as_str()) {
            None => {
                warns.push(PlanWarning::NoBaseName { path: p.clone() });
                proof {
                    assert(warnings_view(warns@) =~= warnings_view(warns0).push(
                        WarningView::NoBaseName { path: pview[i as int] },
                    ));
                    assert(warnings_view(warns0) + rest.2 =~= warnings_view(warns@)
                        + spec_cat_moves(dir@, pview.skip(i + 1), seen).2);
                }
            },
            Some(b) => {
                let to = join_path(dir.as_str(), b.as_str());
                if contains_string(&tos, to.as_str()) {
                    proof {
                        assert(seen.contains(to@));
                    }
                    warns.push(PlanWarning::DuplicateDestination { path: to });
                    proof {
                        assert(warnings_view(warns@) =~= warnings_view(warns0).push(
                            WarningView::DuplicateDestination {
                                path: spec_join(dir@, spec_base_name(pview[i as int])->Some_0),
                            },
                        ));
                        assert(warnings_view(warns0) + rest.2 =~= warnings_view(warns@)
                            + spec_cat_moves(dir@, pview.skip(i + 1), seen).2);
                    }
                } else {
                    proof {
                        assert(!seen.contains(to@));
                    }
                    let ghost tov = to@;
                    let ghost tos0 = tos@;
                    let ghost seen0 = seen;
                    mv.push(PlannedMove { from: p.clone(), to: to.clone() });
                    tos.push(to);
                    proof {
                        seen = seen.insert(
                            spec_join(dir@, spec_base_name(pview[i as int])->Some_0),
                        );
                        assert forall|s: Seq<char>| seen.contains(s) implies exists|k: int|
                            0 <= k < tos@.len() && (#[trigger] tos@[k])@ == s by {
                            if s == tov {
                                assert(tos@[tos0.len() as int]@ == s);
                            } else {
                                assert(seen0.contains(s));
                                let k = choose|k: int|
                                    0 <= k < tos0.len() && (#[trigger] tos0[k])@ == s;
                                assert(tos@[k]@ == s);
                            }
                        }
                        assert forall|s: Seq<char>|
                            (exists|k: int| 0 <= k < tos@.len() && (#[trigger] tos@[k])@ == s)
                                implies seen.contains(s) by {
                            let k = choose|k: int|
                                0 <= k < tos@.len() && (#[trigger] tos@[k])@ == s;
                            if k < tos0.len() {
                                assert(tos0[k]@ == s);
                            } else {
                                assert(s == tov);
                            }
                        }
                        assert(moves_view(mv@) =~= moves_view(mv0).push(
                            MoveView {
                                from: pview[i as int],
                                to: spec_join(dir@, spec_base_name(pview[i as int])->Some_0),
                            },
                        ));
                        assert(moves_view(mv0) + rest.0 =~= moves_view(mv@) + spec_cat_moves(
                            dir@,
                            pview.skip(i + 1),
                            seen,
                        ).0);
                    }
                }
            },
        }
        i = i + 1;
    }
    proof {
        assert(pview.skip(n as int) =~= Seq::<Seq<char>>::empty());
        assert(moves_view(mv@) + Seq::<MoveView>::empty() =~= moves_view(mv@));
        assert(warnings_view(warns@) + Seq::<WarningView>::empty() =~= warnings_view(warns@));
    }
    (mv, warns)
}

/// Computes the moves a validated plan asks for: one destination
/// directory per category (`target_root/category`) and, per path, a move
/// into it under the path's base name, with the duplicate-destination and
/// no-base-name skips recorded as warnings. Within each category the
/// planned destinations are pairwise distinct.
pub fn plan_moves(plan: &ValidPlan) -> (mp: MovePlan)
    ensures
        dirs_view(mp.dirs@) == spec_plan_dirs(
            plan.target_root@,
            categories_view(plan.categories@),
        ),
        warnings_view(mp.warnings@) == spec_plan_warnings(
            plan.target_root@,
            categories_view(plan.categories@),
        ),
        forall|d: int, k1: int, k2: int|
            0 <= d < mp.dirs@.len() && 0 <= k1 < k2 < (#[trigger] mp.dirs@[d]).moves@.len() ==> (
            #[trigger] mp.dirs@[d].moves@[k1]).to@ != (#[trigger] mp.dirs@[d].moves@[k2]).to@,
{
    let ghost cview = categories_view(plan.categories@);
    let n = plan.categories.len();
    let mut dirs: Vec<CategoryMoves> = Vec::new();
    let mut warnings: Vec<PlanWarning> = Vec::new();
    let mut i: usize = 0;
    while i < n
        invariant
            i <= n,
            n == cview.len(),
            cview == categories_view(plan.categories@),
            dirs_view(dirs@) == spec_plan_dirs(plan.target_root@, cview.take(i as int)),
            warnings_view(warnings@) == spec_plan_warnings(
                plan.target_root@,
                cview.take(i as int),
            ),
            forall|d: int, k1: int, k2: int|
                0 <= d < dirs@.len() && 0 <= k1 < k2 < (#[trigger] dirs@[d]).moves@.len() ==> (
                #[trigger] dirs@[d].moves@[k1]).to@ != (#[trigger] dirs@[d].moves@[k2]).to@,
        decreases n - i,
    {
        proof {
            assert(cview.take(i + 1).drop_last() =~= cview.take(i as int));
            assert(cview.take(i + 1).last() == cview[i as int]);
            assert(cview[i as int] == category_view(plan.categories@[i as int]));
        }
        let ghost dirs0 = dirs@;
        let ghost warns0 = warnings@;
        let c = &plan.categories[i];
        let dir = join_path(plan.target_root.as_str(), c.name.as_str());
        let (mvs, mut ws) = plan_category(&dir, &c.paths);
        let ghost ws0 = ws@;
        dirs.push(CategoryMoves { dir, moves: mvs });
        warnings.append(&mut ws);
        proof {
            assert(dirs_view(dirs@) =~= dirs_view(dirs0).push(
                spec_dir_moves(plan.target_root@, cview[i as int]),
            ));
            assert(spec_plan_dirs(plan.target_root@, cview.take(i + 1)) =~= spec_plan_dirs(
                plan.target_root@,
                cview.take(i as int),
            ).push(spec_dir_moves(plan.target_root@, cview[i as int])));
            assert(warnings_view(warnings@) =~= warnings_view(warns0) + warnings_view(ws0));
        }
        i = i + 1;
    }
    proof {
        assert(cview.take(n as int) =~= cview);
    }
    MovePlan { dirs, warnings }
}

} // verus!
