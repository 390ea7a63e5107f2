//! Organize bookkeeping: folds the caller's per-directory and per-move
//! outcomes into a report with the reversible move log, the accumulated
//! errors, and the rendered summary messages.
//!
//! The caller executes a `MovePlan` directory by directory: it creates
//! each destination directory, then attempts each planned rename, and
//! records every outcome. This module decides what those outcomes mean: a
//! failed directory creation skips that category's moves and costs one
//! error, a failed rename costs one error, and every successful rename —
//! and only those — enters the move log, in plan order. The run counts as
//! a success exactly when no error was accumulated; the log is returned
//! either way, so a partial run can still be undone.

use crate::plan::{dirs_view, DirMovesView, MovePlan, MoveView};
use crate::text::{
    contains_seq, dec_digits, lemma_contains_concat_left, lemma_contains_concat_right,
    lemma_contains_self, usize_to_string,
};
use vstd::prelude::*;

verus! {

/// One executed move: the source and destination of a rename that
/// succeeded. An ordered sequence of these is the move log, the sole
/// state needed to reverse an organize run.
#[derive(Debug)]
pub struct MoveRecord {
    pub from: String,
    pub to: String,
}

pub open spec fn record_view(m: MoveRecord) -> MoveView {
    MoveView { from: m.from@, to: m.to@ }
}

pub open spec fn records_view(ms: Seq<MoveRecord>) -> Seq<MoveView> {
    ms.map_values(|m: MoveRecord| record_view(m))
}

/// What the caller's execution of one planned category came to: the
/// directory creation outcome, then one outcome per planned move (`None`
/// is success, `Some` holds the failure's text). When the directory could
/// not be created the moves were not attempted and `move_results` is
/// empty.
pub struct CategoryOutcome {
    pub dir_error: Option<String>,
    pub move_results: Vec<Option<String>>,
}

/// Mathematical image of a `CategoryOutcome`.
pub ghost struct OutcomeView {
    pub dir_error: Option<Seq<char>>,
    pub move_results: Seq<Option<Seq<char>>>,
}

pub open spec fn result_view(r: Option<String>) -> Option<Seq<char>> {
    match r {
        Some(s) => Some(s@),
        None => None,
    }
}

pub open spec fn outcome_view(o: CategoryOutcome) -> OutcomeView {
    OutcomeView {
        dir_error: result_view(o.dir_error),
        move_results: o.move_results@.map_values(|r: Option<String>| result_view(r)),
    }
}

pub open spec fn outcomes_view(os: Seq<CategoryOutcome>) -> Seq<OutcomeView> {
    os.map_values(|o: CategoryOutcome| outcome_view(o))
}

/// An error accumulated during an organize run.
#[derive(Debug)]
pub enum OrganizeError {
    CreateDirectory { dir: String, detail: String },
    MoveFile { from: String, detail: String },
}

/// Mathematical image of an `OrganizeError`.
pub ghost enum OrganizeErrorView {
    CreateDirectory { dir: Seq<char>, detail: Seq<char> },
    MoveFile { from: Seq<char>, detail: Seq<char> },
}

pub open spec fn error_view(e: OrganizeError) -> OrganizeErrorView {
    match e {
        OrganizeError::CreateDirectory { dir, detail } => OrganizeErrorView::CreateDirectory {
            dir: dir@,
            detail: detail@,
        },
        OrganizeError::MoveFile { from, detail } => OrganizeErrorView::MoveFile {
            from: from@,
            detail: detail@,
        },
    }
}

pub open spec fn errors_view(es: Seq<OrganizeError>) -> Seq<OrganizeErrorView> {
    es.map_values(|e: OrganizeError| error_view(e))
}

/// The outcomes line up with the plan: one outcome per planned
/// directory, and per directory either a creation failure with no move
/// results or one result per planned move.
pub open spec fn outcomes_match(dirs: Seq<DirMovesView>, outs: Seq<OutcomeView>) -> bool {
    &&& outs.len() == dirs.len()
    &&& forall|d: int|
        0 <= d < outs.len() ==> match (#[trigger] outs[d]).dir_error {
            Some(_) => outs[d].move_results.len() == 0,
            None => outs[d].move_results.len() == dirs[d].moves.len(),
        }
}

/// The moves of one category that succeeded, in order.
pub open spec fn spec_dir_log(moves: Seq<MoveView>, results: Seq<Option<Seq<char>>>) -> Seq<
    MoveView,
>
    decreases results.len(),
{
    if results.len() == 0 || moves.len() == 0 {
        Seq::empty()
    } else {
        let rest = spec_dir_log(moves.drop_last(), results.drop_last());
        match results.last() {
            None => rest.push(moves.last()),
            Some(_) => rest,
        }
    }
}

/// The move errors of one category, in order.
pub open spec fn spec_dir_errors(moves: Seq<MoveView>, results: Seq<Option<Seq<char>>>) -> Seq<
    OrganizeErrorView,
>
    decreases results.len(),
{
    if results.len() == 0 || moves.len() == 0 {
        Seq::empty()
    } else {
        let rest = spec_dir_errors(moves.drop_last(), results.drop_last());
        match results.last() {
            None => rest,
            Some(d) => rest.push(OrganizeErrorView::MoveFile { from: moves.last().from, detail: d }),
        }
    }
}

/// The move log of a whole run: the successful moves, in plan order. A
/// category whose directory could not be created contributes nothing.
pub open spec fn spec_log(dirs: Seq<DirMovesView>, outs: Seq<OutcomeView>) -> Seq<MoveView>
    decreases dirs.len(),
{
    if dirs.len() == 0 || outs.len() == 0 {
        Seq::empty()
    } else {
        spec_log(dirs.drop_last(), outs.drop_last()) + match outs.last().dir_error {
            Some(_) => Seq::empty(),
            None => spec_dir_log(dirs.last().moves, outs.last().move_results),
        }
    }
}

/// The errors of a whole run, in plan order: one per failed directory
/// creation, one per failed move.
pub open spec fn spec_errors(dirs: Seq<DirMovesView>, outs: Seq<OutcomeView>) -> Seq<
    OrganizeErrorView,
>
    decreases dirs.len(),
{
    if dirs.len() == 0 || outs.len() == 0 {
        Seq::empty()
    } else {
        spec_errors(dirs.drop_last(), outs.drop_last()) + match outs.last().dir_error {
            Some(d) => seq![
                OrganizeErrorView::CreateDirectory { dir: dirs.last().dir, detail: d },
            ],
            None => spec_dir_errors(dirs.last().moves, outs.last().move_results),
        }
    }
}

/// All the moves a plan asks for, in order.
pub open spec fn spec_all_moves(dirs: Seq<DirMovesView>) -> Seq<MoveView>
    decreases dirs.len(),
{
    if dirs.len() == 0 {
        Seq::empty()
    } else {
        spec_all_moves(dirs.drop_last()) + dirs.last().moves
    }
}

/// The result of an organize run: how many files moved, the reversible
/// move log of exactly those, and the accumulated errors. The run
/// succeeded exactly when `errors` is empty; the log is available either
/// way, so a partial run can still be undone.
pub struct OrganizeReport {
    pub moved: usize,
    pub log: Vec<MoveRecord>,
    pub errors: Vec<OrganizeError>,
}

impl OrganizeReport {
    /// A run succeeded when nothing failed.
    pub open spec fn spec_success(self) -> bool {
        self.errors@.len() == 0
    }

    /// A run succeeded when nothing failed.
    pub fn is_success(&self) -> (b: bool)
        ensures
            b == self.spec_success(),
    {
        self.errors.len() == 0
    }
}

/// Folds the caller's outcomes into the report: the log holds exactly
/// the successful moves in plan order, the errors hold exactly the
/// failures in plan order, and `moved` counts the log.
pub fn collect_organize(plan: &MovePlan, outcomes: &Vec<CategoryOutcome>) -> (rep: OrganizeReport)
    requires
        outcomes_match(dirs_view(plan.dirs@), outcomes_view(outcomes@)),
    ensures
        records_view(rep.log@) == spec_log(dirs_view(plan.dirs@), outcomes_view(outcomes@)),
        errors_view(rep.errors@) == spec_errors(dirs_view(plan.dirs@), outcomes_view(outcomes@)),
        rep.moved == rep.log@.len(),
{
    let ghost dview = dirs_view(plan.dirs@);
    let ghost oview = outcomes_view(outcomes@);
    let n = plan.dirs.len();
    let mut log: Vec<MoveRecord> = Vec::new();
    let mut errors: Vec<OrganizeError> = Vec::new();
    let mut d: usize = 0;
    while d < n
        invariant
            d <= n,
            n == dview.len(),
            dview == dirs_view(plan.dirs@),
            oview == outcomes_view(outcomes@),
            outcomes_match(dview, oview),
            n == plan.dirs@.len() && n == outcomes@.len(),
            records_view(log@) == spec_log(dview.take(d as int), oview.take(d as int)),
            errors_view(errors@) == spec_errors(dview.take(d as int), oview.take(d as int)),
        decreases n - d,
    {
        proof {
            assert(dview.take(d + 1).drop_last() =~= dview.take(d as int));
            assert(oview.take(d + 1).drop_last() =~= oview.take(d as int));
            assert(dview.take(d + 1).last() == dview[d as int]);
            assert(oview.take(d + 1).last() == oview[d as int]);
            assert(dview[d as int] == crate::plan::dir_moves_view(plan.dirs@[d as int]));
            assert(oview[d as int] == outcome_view(outcomes@[d as int]));
        }
        let ghost log0 = log@;
        let ghost errs0 = errors@;
        let dir_plan = &plan.dirs[d];
        let outcome = &outcomes[d];
        match &outcome.dir_error {
            Some(detail) => {
                errors.push(
                    OrganizeError::CreateDirectory {
                        dir: dir_plan.dir.clone(),
                        detail: detail.clone(),
                    },
                );
                proof {
                    assert(errors_view(errors@) =~= errors_view(errs0).push(
                        OrganizeErrorView::CreateDirectory {
                            dir: dview[d as int].dir,
                            detail: oview[d as int].dir_error->Some_0,
                        },
                    ));
                    assert(errors_view(errors@) =~= errors_view(errs0) + seq![
                        OrganizeErrorView::CreateDirectory {
                            dir: dview[d as int].dir,
                            detail: oview[d as int].dir_error->Some_0,
                        },
                    ]);
                    assert(records_view(log@) =~= records_view(log0) + Seq::<MoveView>::empty());
                }
            },
            None => {
                let ghost mview = dview[d as int].moves;
                let ghost rview = oview[d as int].move_results;
                let m = dir_plan.moves.len();
                let mut j: usize = 0;
                while j < m
                    invariant
                        j <= m,
                        m == mview.len(),
                        m == rview.len(),
                        m == dir_plan.moves@.len(),
                        m == outcome.move_results@.len(),
                        mview == crate::plan::moves_view(dir_plan.moves@),
                        rview == outcome.move_results@.map_values(
                            |r: Option<String>| result_view(r),
                        ),
                        records_view(log@) == records_view(log0) + spec_dir_log(
                            mview.take(j as int),
                            rview.take(j as int),
                        ),
                        errors_view(errors@) == errors_view(errs0) + spec_dir_errors(
                            mview.take(j as int),
                            rview.take(j as int),
                        ),
                    decreases m - j,
                {
                    proof {
                        assert(mview.take(j + 1).drop_last() =~= mview.take(j as int));
                        assert(rview.take(j + 1).drop_last() =~= rview.take(j as int));
                        assert(mview.take(j + 1).last() == mview[j as int]);
                        assert(rview.take(j + 1).last() == rview[j as int]);
                        assert(mview[j as int] == crate::plan::move_view(
                            dir_plan.moves@[j as int],
                        ));
                        assert(rview[j as int] == result_view(outcome.move_results@[j as int]));
                    }
                    let ghost log1 = log@;
                    let ghost errs1 = errors@;
                    let mv = &dir_plan.moves[j];
                    match &outcome.move_results[j] {
                        None => {
                            log.push(MoveRecord { from: mv.from.clone(), to: mv.to.clone() });
                            proof {
                                assert(records_view(log@) =~= records_view(log1).push(
                                    mview[j as int],
                                ));
                                assert(records_view(log1).push(mview[j as int]) =~= records_view(
                                    log0,
                                ) + spec_dir_log(mview.take(j + 1), rview.take(j + 1)));
                            }
                        },
                        Some(detail) => {
                            errors.push(
                                OrganizeError::MoveFile {
                                    from: mv.from.clone(),
                                    detail: detail.clone(),
                                },
                            );
                            proof {
                                assert(errors_view(errors@) =~= errors_view(errs1).push(
                                    OrganizeErrorView::MoveFile {
                                        from: mview[j as int].from,
                                        detail: rview[j as int]->Some_0,
                                    },
                                ));
                                assert(errors_view(errs1).push(
                                    OrganizeErrorView::MoveFile {
                                        from: mview[j as int].from,
                                        detail: rview[j as int]->Some_0,
                                    },
                                ) =~= errors_view(errs0) + spec_dir_errors(
                                    mview.take(j + 1),
                                    rview.take(j + 1),
                                ));
                            }
                        },
                    }
                    j = j + 1;
                }
                proof {
                    assert(mview.take(m as int) =~= mview);
                    assert(rview.take(m as int) =~= rview);
                }
            },
        }
        d = d + 1;
    }
    proof {
        assert(dview.take(n as int) =~= dview);
        assert(oview.take(n as int) =~= oview);
    }
    let moved = log.len();
    OrganizeReport { moved, log, errors }
}

/// When no error was accumulated, the log holds every planned move: a
/// clean run of a plan with N moves yields a log of exactly N entries.
pub proof fn lemma_clean_run_logs_every_move(dirs: Seq<DirMovesView>, outs: Seq<OutcomeView>)
    requires
        outcomes_match(dirs, outs),
        spec_errors(dirs, outs).len() == 0,
    ensures
        spec_log(dirs, outs) == spec_all_moves(dirs),
    decreases dirs.len(),
{
    if dirs.len() == 0 {
        assert(spec_log(dirs, outs) =~= spec_all_moves(dirs));
    } else {
        assert(outcomes_match(dirs.drop_last(), outs.drop_last()));
        match outs.last().dir_error {
            Some(_) => {
                assert(spec_errors(dirs, outs).len() >= 1);
            },
            None => {
                lemma_clean_run_logs_every_move(dirs.drop_last(), outs.drop_last());
                lemma_clean_dir_logs_every_move(dirs.last().moves, outs.last().move_results);
            },
        }
    }
}

/// The line one error renders to.
pub open spec fn spec_error_line(e: OrganizeErrorView) -> Seq<char> {
    match e {
        OrganizeErrorView::CreateDirectory { dir, detail } => "Failed to create directory "@ + dir
            + ": "@ + detail,
        OrganizeErrorView::MoveFile { from, detail } => "Failed to move "@ + from + ": "@ + detail,
    }
}

/// The error lines, joined with newlines.
pub open spec fn spec_error_lines(es: Seq<OrganizeErrorView>) -> Seq<char>
    decreases es.len(),
{
    if es.len() == 0 {
        Seq::empty()
    } else if es.len() == 1 {
        spec_error_line(es[0])
    } else {
        spec_error_lines(es.drop_last()) + "\n"@ + spec_error_line(es.last())
    }
}

/// The message of a clean run.
pub open spec fn spec_success_message(moved: nat) -> Seq<char> {
    "✅ Organized "@ + dec_digits(moved) + " files successfully!"@
}

/// The aggregate message of a run with failures: the count that did
/// succeed, then every error on its own line.
pub open spec fn spec_failure_message(moved: nat, es: Seq<OrganizeErrorView>) -> Seq<char> {
    "Moved "@ + dec_digits(moved) + " files, but some errors occurred:\n"@ + spec_error_lines(es)
}

fn error_line(e: &OrganizeError) -> (s: String)
    ensures
        s@ == spec_error_line(error_view(*e)),
{
    match e {
        OrganizeError::CreateDirectory { dir, detail } => {
            let mut s = "Failed to create directory ".to_owned();
            s.append(dir.as_str());
            s.append(": ");
            s.append(detail.as_str());
            s
        },
        OrganizeError::MoveFile { from, detail } => {
            let mut s = "Failed to move ".to_owned();
            s.append(from.as_str());
            s.append(": ");
            s.append(detail.as_str());
            s
        },
    }
}

fn join_error_lines(errors: &Vec<OrganizeError>) -> (s: String)
    ensures
        s@ == spec_error_lines(errors_view(errors@)),
{
    let ghost eview = errors_view(errors@);
    let n = errors.len();
    let mut s = String::new();
    let mut i: usize = 0;
    while i < n
        invariant
            i <= n,
            n == eview.len(),
            eview == errors_view(errors@),
            n == errors@.len(),
            s@ == spec_error_lines(eview.take(i as int)),
        decreases n - i,
    {
        proof {
            assert(eview.take(i + 1).drop_last() =~= eview.take(i as int));
            assert(eview.take(i + 1).last() == eview[i as int]);
            assert(eview[i as int] == error_view(errors@[i as int]));
        }
        let line = error_line(&errors[i]);
        if i > 0 {
            s.append("\n");
        } else {
            proof {
                assert(eview.take(1)[0] == eview[0]);
                assert(Seq::<char>::empty() + spec_error_line(eview[0]) =~= spec_error_line(
                    eview[0],
                ));
            }
        }
        s.append(line.as_str());
        i = i + 1;
    }
    proof {
        assert(eview.take(n as int) =~= eview);
    }
    s
}

/// Renders the message of a clean run.
pub fn organize_success_message(moved: usize) -> (s: String)
    ensures
        s@ == spec_success_message(moved as nat),
{
    let mut s = "✅ Organized ".to_owned();
    let num = usize_to_string(moved);
    s.append(num.as_str());
    s.append(" files successfully!");
    s
}

/// Renders the aggregate message of a run with failures.
pub fn organize_failure_message(report: &OrganizeReport) -> (s: String)
    ensures
        s@ == spec_failure_message(report.moved as nat, errors_view(report.errors@)),
{
    let mut s = "Moved ".to_owned();
    let num = usize_to_string(report.moved);
    s.append(num.as_str());
    s.append(" files, but some errors occurred:\n");
    let joined = join_error_lines(&report.errors);
    s.append(joined.as_str());
    s
}

/// The path a rendered error line names: the directory that could not be
/// created, or the file that could not be moved.
pub open spec fn error_subject(e: OrganizeErrorView) -> Seq<char> {
    match e {
        OrganizeErrorView::CreateDirectory { dir, .. } => dir,
        OrganizeErrorView::MoveFile { from, .. } => from,
    }
}

proof fn lemma_line_names_subject(e: OrganizeErrorView)
    ensures
        contains_seq(spec_error_line(e), error_subject(e)),
{
    let subj = error_subject(e);
    lemma_contains_self(subj);
    match e {
        OrganizeErrorView::CreateDirectory { dir, detail } => {
            lemma_contains_concat_left("Failed to create directory "@, dir, subj);
            lemma_contains_concat_right("Failed to create directory "@ + dir, ": "@, subj);
            lemma_contains_concat_right(
                "Failed to create directory "@ + dir + ": "@,
                detail,
                subj,
            );
        },
        OrganizeErrorView::MoveFile { from, detail } => {
            lemma_contains_concat_left("Failed to move "@, from, subj);
            lemma_contains_concat_right("Failed to move "@ + from, ": "@, subj);
            lemma_contains_concat_right("Failed to move "@ + from + ": "@, detail, subj);
        },
    }
}

proof fn lemma_lines_name_subjects(es: Seq<OrganizeErrorView>, k: int)
    requires
        0 <= k < es.len(),
    ensures
        contains_seq(spec_error_lines(es), error_subject(es[k])),
    decreases es.len(),
{
    if es.len() == 1 {
        lemma_line_names_subject(es[0]);
    } else if k == es.len() - 1 {
        lemma_line_names_subject(es.last());
        lemma_contains_concat_left(
            spec_error_lines(es.drop_last()) + "\n"@,
            spec_error_line(es.last()),
            error_subject(es.last()),
        );
    } else {
        lemma_lines_name_subjects(es.drop_last(), k);
        assert(es.drop_last()[k] == es[k]);
        lemma_contains_concat_right(
            spec_error_lines(es.drop_last()),
            "\n"@,
            error_subject(es[k]),
        );
        lemma_contains_concat_right(
            spec_error_lines(es.drop_last()) + "\n"@,
            spec_error_line(es.last()),
            error_subject(es[k]),
        );
    }
}

/// The aggregate failure message reports the exact count that succeeded
/// and names the path of every failure.
pub proof fn lemma_failure_message_reports(moved: nat, es: Seq<OrganizeErrorView>, k: int)
    requires
        0 <= k < es.len(),
    ensures
        contains_seq(spec_failure_message(moved, es), dec_digits(moved)),
        contains_seq(spec_failure_message(moved, es), error_subject(es[k])),
{
    lemma_contains_self(dec_digits(moved));
    lemma_contains_concat_left("Moved "@, dec_digits(moved), dec_digits(moved));
    lemma_contains_concat_right(
        "Moved "@ + dec_digits(moved),
        " files, but some errors occurred:\n"@,
        dec_digits(moved),
    );
    lemma_contains_concat_right(
        "Moved "@ + dec_digits(moved) + " files, but some errors occurred:\n"@,
        spec_error_lines(es),
        dec_digits(moved),
    );
    lemma_lines_name_subjects(es, k);
    lemma_contains_concat_left(
        "Moved "@ + dec_digits(moved) + " files, but some errors occurred:\n"@,
        spec_error_lines(es),
        error_subject(es[k]),
    );
}

/// When no move of a category failed, its log holds all its moves.
proof fn lemma_clean_dir_logs_every_move(moves: Seq<MoveView>, results: Seq<Option<Seq<char>>>)
    requires
        moves.len() == results.len(),
        spec_dir_errors(moves, results).len() == 0,
    ensures
        spec_dir_log(moves, results) == moves,
    decreases moves.len(),
{
    if moves.len() == 0 {
        assert(spec_dir_log(moves, results) =~= moves);
    } else {
        match results.last() {
            None => {
                lemma_clean_dir_logs_every_move(moves.drop_last(), results.drop_last());
                assert(spec_dir_log(moves, results) =~= moves);
            },
            Some(_) => {
                assert(spec_dir_errors(moves, results).len() >= 1);
            },
        }
    }
}

} // verus!
