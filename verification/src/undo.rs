//! Undo bookkeeping: turns a move log into the reversals and the
//! cleanup-directory list, and folds the caller's reversal outcomes into
//! a report with rendered summary messages.
//!
//! For each log entry the caller renames the destination back to the
//! source; failures are accumulated, never fail-fast. The cleanup list
//! holds the distinct parent directories of the log's destinations — the
//! category directories an organize run created — which the caller
//! removes afterwards if they still exist and are empty (best-effort, a
//! courtesy only).

use crate::moves::{records_view, result_view, MoveRecord};
use crate::plan::MoveView;
use crate::text::{
    contains_seq, contains_string, dec_digits, lemma_contains_concat_left,
    lemma_contains_concat_right, lemma_contains_self, parent_dir, spec_parent, usize_to_string,
};
use vstd::prelude::*;

verus! {

/// Everything an undo run has to do: one reversal per logged move, in
/// log order, and the distinct destination parents to clean up after.
pub struct UndoPlan {
    pub reversals: Vec<MoveRecord>,
    pub cleanup_dirs: Vec<String>,
}

/// Some element of `dirs` holds the characters of `s`.
pub open spec fn dirs_contain(dirs: Seq<String>, s: Seq<char>) -> bool {
    exists|j: int| 0 <= j < dirs.len() && (#[trigger] dirs[j])@ == s
}

/// `dirs` is exactly the set of distinct parents of the destinations in
/// `log`: it has every such parent, nothing else, and no repeats.
pub open spec fn is_cleanup_set(log: Seq<MoveRecord>, dirs: Seq<String>) -> bool {
    &&& forall|k: int|
        0 <= k < log.len() && spec_parent((#[trigger] log[k]).to@) is Some ==> dirs_contain(
            dirs,
            spec_parent(log[k].to@)->Some_0,
        )
    &&& forall|j: int|
        0 <= j < dirs.len() ==> exists|k: int|
            0 <= k < log.len() && spec_parent((#[trigger] log[k]).to@) == Some(
                (#[trigger] dirs[j])@,
            )
    &&& forall|j1: int, j2: int|
        0 <= j1 < j2 < dirs.len() ==> (#[trigger] dirs[j1])@ != (#[trigger] dirs[j2])@
}

/// Computes the reversals of a move log: entry `k` renames `log[k].to`
/// back to `log[k].from`, so a completed undo restores every file to its
/// original path. `cleanup_dirs` holds exactly the distinct parents of
/// the logged destinations, each once.
pub fn plan_undo(log: &Vec<MoveRecord>) -> (up: UndoPlan)
    ensures
        up.reversals@.len() == log@.len(),
        forall|k: int|
            0 <= k < log@.len() ==> (#[trigger] up.reversals@[k]).from@ == log@[k].to@
                && up.reversals@[k].to@ == log@[k].from@,
        is_cleanup_set(log@, up.cleanup_dirs@),
{
    let n = log.len();
    let mut reversals: Vec<MoveRecord> = Vec::new();
    let mut cleanup_dirs: Vec<String> = Vec::new();
    let mut i: usize = 0;
    proof {
        assert(log@.take(0) =~= Seq::<MoveRecord>::empty());
    }
    while i < n
        invariant
            i <= n,
            n == log@.len(),
            reversals@.len() == i,
            forall|k: int|
                0 <= k < i ==> (#[trigger] reversals@[k]).from@ == log@[k].to@
                    && reversals@[k].to@ == log@[k].from@,
            is_cleanup_set(log@.take(i as int), cleanup_dirs@),
        decreases n - i,
    {
        proof {
            assert(forall|k: int| 0 <= k < i + 1 ==> (#[trigger] log@.take(i + 1)[k]) == log@[k]);
            assert(forall|k: int|
                0 <= k < i ==> (#[trigger] log@.take(i as int)[k]) == log@[k]);
        }
        let ghost prefix = log@.take(i as int);
        let ghost prefix1 = log@.take(i + 1);
        let m = &log[i];
        reversals.push(MoveRecord { from: m.to.clone(), to: m.from.clone() });
        let ghost dirs0 = cleanup_dirs@;
        match parent_dir(m.to.as_str()) {
            Some(par) => {
                if !contains_string(&cleanup_dirs, par.as_str()) {
                    let ghost parv = par@;
                    cleanup_dirs.push(par);
                    proof {
                        assert forall|k: int|
                            0 <= k < prefix1.len() && spec_parent(
                                (#[trigger] prefix1[k]).to@,
                            ) is Some implies dirs_contain(
                            cleanup_dirs@,
                            spec_parent(prefix1[k].to@)->Some_0,
                        ) by {
                            if k < i {
                                assert(dirs_contain(dirs0, spec_parent(prefix[k].to@)->Some_0));
                                let j = choose|j: int|
                                    0 <= j < dirs0.len() && (#[trigger] dirs0[j])@ == spec_parent(
                                        prefix[k].to@,
                                    )->Some_0;
                                assert(cleanup_dirs@[j]@ == spec_parent(prefix1[k].to@)->Some_0);
                            } else {
                                assert(cleanup_dirs@[dirs0.len() as int]@ == parv);
                            }
                        }
                        assert forall|j: int| 0 <= j < cleanup_dirs@.len() implies exists|k: int|
                            0 <= k < prefix1.len() && spec_parent((#[trigger] prefix1[k]).to@)
                                == Some((#[trigger] cleanup_dirs@[j])@) by {
                            if j < dirs0.len() {
                                let k = choose|k: int|
                                    0 <= k < prefix.len() && spec_parent(
                                        (#[trigger] prefix[k]).to@,
                                    ) == Some(dirs0[j]@);
                                assert(spec_parent(prefix1[k].to@) == Some(cleanup_dirs@[j]@));
                            } else {
                                assert(spec_parent(prefix1[i as int].to@) == Some(
                                    cleanup_dirs@[j]@,
                                ));
                            }
                        }
                    }
                } else {
                    proof {
                        assert forall|k: int|
                            0 <= k < prefix1.len() && spec_parent(
                                (#[trigger] prefix1[k]).to@,
                            ) is Some implies dirs_contain(
                            cleanup_dirs@,
                            spec_parent(prefix1[k].to@)->Some_0,
                        ) by {
                            if k < i {
                                assert(dirs_contain(dirs0, spec_parent(prefix[k].to@)->Some_0));
                            } else {
                                let j = choose|j: int|
                                    0 <= j < cleanup_dirs@.len() && (#[trigger] cleanup_dirs@[j])@
                                        == par@;
                                assert(cleanup_dirs@[j]@ == spec_parent(prefix1[k].to@)->Some_0);
                            }
                        }
                        assert forall|j: int| 0 <= j < cleanup_dirs@.len() implies exists|k: int|
                            0 <= k < prefix1.len() && spec_parent((#[trigger] prefix1[k]).to@)
                                == Some((#[trigger] cleanup_dirs@[j])@) by {
                            let k = choose|k: int|
                                0 <= k < prefix.len() && spec_parent((#[trigger] prefix[k]).to@)
                                    == Some(cleanup_dirs@[j]@);
                            assert(spec_parent(prefix1[k].to@) == Some(cleanup_dirs@[j]@));
                        }
                    }
                }
            },
            None => {
                proof {
                    assert forall|j: int| 0 <= j < cleanup_dirs@.len() implies exists|k: int|
                        0 <= k < prefix1.len() && spec_parent((#[trigger] prefix1[k]).to@) == Some(
                            (#[trigger] cleanup_dirs@[j])@,
                        ) by {
                        let k = choose|k: int|
                            0 <= k < prefix.len() && spec_parent((#[trigger] prefix[k]).to@)
                                == Some(cleanup_dirs@[j]@);
                        assert(spec_parent(prefix1[k].to@) == Some(cleanup_dirs@[j]@));
                    }
                }
            },
        }
        i = i + 1;
    }
    proof {
        assert(log@.take(n as int) =~= log@);
    }
    UndoPlan { reversals, cleanup_dirs }
}

/// An error accumulated during an undo run: the destination that could
/// not be moved back, and the failure's text.
#[derive(Debug)]
pub struct UndoError {
    pub path: String,
    pub detail: String,
}

/// Mathematical image of an `UndoError`.
pub ghost struct UndoErrorView {
    pub path: Seq<char>,
    pub detail: Seq<char>,
}

pub open spec fn undo_error_view(e: UndoError) -> UndoErrorView {
    UndoErrorView { path: e.path@, detail: e.detail@ }
}

pub open spec fn undo_errors_view(es: Seq<UndoError>) -> Seq<UndoErrorView> {
    es.map_values(|e: UndoError| undo_error_view(e))
}

/// The undo errors of a run, in log order.
pub open spec fn spec_undo_errors(ms: Seq<MoveView>, rs: Seq<Option<Seq<char>>>) -> Seq<
    UndoErrorView,
>
    decreases rs.len(),
{
    if rs.len() == 0 || ms.len() == 0 {
        Seq::empty()
    } else {
        let rest = spec_undo_errors(ms.drop_last(), rs.drop_last());
        match rs.last() {
            None => rest,
            Some(d) => rest.push(UndoErrorView { path: ms.last().to, detail: d }),
        }
    }
}

/// How many reversals succeeded.
pub open spec fn spec_restored(rs: Seq<Option<Seq<char>>>) -> nat
    decreases rs.len(),
{
    if rs.len() == 0 {
        0
    } else {
        spec_restored(rs.drop_last()) + if rs.last() is None {
            1nat
        } else {
            0nat
        }
    }
}

/// The result of an undo run: how many files were restored and the
/// accumulated errors. The run succeeded exactly when `errors` is empty.
pub struct UndoReport {
    pub restored: usize,
    pub errors: Vec<UndoError>,
}

impl UndoReport {
    /// A run succeeded when nothing failed.
    pub open spec fn spec_success(self) -> bool {
        self.errors@.len() == 0
    }

    /// A run succeeded when nothing failed.
    pub fn is_success(&self) -> (b: bool)
        ensures
            b == self.spec_success(),
    {
        self.errors.len() == 0
    }
}

/// Folds the caller's reversal outcomes (`None` is success, `Some` the
/// failure's text, one per log entry in order) into the report.
pub fn collect_undo(log: &Vec<MoveRecord>, results: &Vec<Option<String>>) -> (rep: UndoReport)
    requires
        results@.len() == log@.len(),
    ensures
        rep.restored == spec_restored(results@.map_values(|r: Option<String>| result_view(r))),
        undo_errors_view(rep.errors@) == spec_undo_errors(
            records_view(log@),
            results@.map_values(|r: Option<String>| result_view(r)),
        ),
{
    let ghost mview = records_view(log@);
    let ghost rview = results@.map_values(|r: Option<String>| result_view(r));
    let n = log.len();
    let mut restored: usize = 0;
    let mut errors: Vec<UndoError> = Vec::new();
    let mut i: usize = 0;
    while i < n
        invariant
            i <= n,
            n == log@.len(),
            n == results@.len(),
            mview == records_view(log@),
            rview == results@.map_values(|r: Option<String>| result_view(r)),
            restored <= i,
            restored == spec_restored(rview.take(i as int)),
            undo_errors_view(errors@) == spec_undo_errors(mview.take(i as int), rview.take(i as int)),
        decreases n - i,
    {
        proof {
            assert(mview.take(i + 1).drop_last() =~= mview.take(i as int));
            assert(rview.take(i + 1).drop_last() =~= rview.take(i as int));
            assert(mview.take(i + 1).last() == mview[i as int]);
            assert(rview.take(i + 1).last() == rview[i as int]);
            assert(mview[i as int] == crate::moves::record_view(log@[i as int]));
            assert(rview[i as int] == result_view(results@[i as int]));
        }
        let ghost errs0 = errors@;
        match &results[i] {
            None => {
                restored = restored + 1;
            },
            Some(detail) => {
                errors.push(UndoError { path: log[i].to.clone(), detail: detail.clone() });
                proof {
                    assert(undo_errors_view(errors@) =~= undo_errors_view(errs0).push(
                        UndoErrorView { path: mview[i as int].to, detail: rview[i as int]->Some_0 },
                    ));
                }
            },
        }
        i = i + 1;
    }
    proof {
        assert(mview.take(n as int) =~= mview);
        assert(rview.take(n as int) =~= rview);
    }
    UndoReport { restored, errors }
}

/// When every reversal succeeds, every file is restored.
pub proof fn lemma_clean_undo_restores_all(rs: Seq<Option<Seq<char>>>)
    requires
        forall|k: int| 0 <= k < rs.len() ==> (#[trigger] rs[k]) is None,
    ensures
        spec_restored(rs) == rs.len(),
    decreases rs.len(),
{
    if rs.len() > 0 {
        lemma_clean_undo_restores_all(rs.drop_last());
    }
}

/// The line one undo error renders to.
pub open spec fn spec_undo_error_line(e: UndoErrorView) -> Seq<char> {
    "Failed to move back "@ + e.path + ": "@ + e.detail
}

/// The undo error lines, joined with newlines.
pub open spec fn spec_undo_error_lines(es: Seq<UndoErrorView>) -> Seq<char>
    decreases es.len(),
{
    if es.len() == 0 {
        Seq::empty()
    } else if es.len() == 1 {
        spec_undo_error_line(es[0])
    } else {
        spec_undo_error_lines(es.drop_last()) + "\n"@ + spec_undo_error_line(es.last())
    }
}

/// The message of a clean undo run.
pub open spec fn spec_undo_success_message(restored: nat) -> Seq<char> {
    "✅ Undo successful! Restored "@ + dec_digits(restored) + " files."@
}

/// The aggregate message of an undo run with failures.
pub open spec fn spec_undo_failure_message(restored: nat, es: Seq<UndoErrorView>) -> Seq<char> {
    "Restored "@ + dec_digits(restored) + " files, but some errors occurred:\n"@
        + spec_undo_error_lines(es)
}

fn undo_error_line(e: &UndoError) -> (s: String)
    ensures
        s@ == spec_undo_error_line(undo_error_view(*e)),
{
    let mut s = "Failed to move back ".to_owned();
    s.append(e.path.as_str());
    s.append(": ");
    s.append(e.detail.as_str());
    s
}

/// Renders the message of a clean undo run.
pub fn undo_success_message(restored: usize) -> (s: String)
    ensures
        s@ == spec_undo_success_message(restored as nat),
{
    let mut s = "✅ Undo successful! Restored ".to_owned();
    let num = usize_to_string(restored);
    s.append(num.as_str());
    s.append(" files.");
    s
}

/// Renders the aggregate message of an undo run with failures.
pub fn undo_failure_message(report: &UndoReport) -> (s: String)
    ensures
        s@ == spec_undo_failure_message(
            report.restored as nat,
            undo_errors_view(report.errors@),
        ),
{
    let ghost eview = undo_errors_view(report.errors@);
    let mut s = "Restored ".to_owned();
    let num = usize_to_string(report.restored);
    s.append(num.as_str());
    s.append(" files, but some errors occurred:\n");
    let n = report.errors.len();
    let mut lines = String::new();
    let mut i: usize = 0;
    while i < n
        invariant
            i <= n,
            n == eview.len(),
            eview == undo_errors_view(report.errors@),
            n == report.errors@.len(),
            lines@ == spec_undo_error_lines(eview.take(i as int)),
        decreases n - i,
    {
        proof {
            assert(eview.take(i + 1).drop_last() =~= eview.take(i as int));
            assert(eview.take(i + 1).last() == eview[i as int]);
            assert(eview[i as int] == undo_error_view(report.errors@[i as int]));
        }
        let line = undo_error_line(&report.errors[i]);
        if i > 0 {
            lines.append("\n");
        } else {
            proof {
                assert(eview.take(1)[0] == eview[0]);
                assert(Seq::<char>::empty() + spec_undo_error_line(eview[0])
                    =~= spec_undo_error_line(eview[0]));
            }
        }
        lines.append(line.as_str());
        i = i + 1;
    }
    proof {
        assert(eview.take(n as int) =~= eview);
    }
    s.append(lines.as_str());
    s
}

proof fn lemma_undo_line_names_path(e: UndoErrorView)
    ensures
        contains_seq(spec_undo_error_line(e), e.path),
{
    lemma_contains_self(e.path);
    lemma_contains_concat_left("Failed to move back "@, e.path, e.path);
    lemma_contains_concat_right("Failed to move back "@ + e.path, ": "@, e.path);
    lemma_contains_concat_right("Failed to move back "@ + e.path + ": "@, e.detail, e.path);
}

proof fn lemma_undo_lines_name_paths(es: Seq<UndoErrorView>, k: int)
    requires
        0 <= k < es.len(),
    ensures
        contains_seq(spec_undo_error_lines(es), es[k].path),
    decreases es.len(),
{
    if es.len() == 1 {
        lemma_undo_line_names_path(es[0]);
    } else if k == es.len() - 1 {
        lemma_undo_line_names_path(es.last());
        lemma_contains_concat_left(
            spec_undo_error_lines(es.drop_last()) + "\n"@,
            spec_undo_error_line(es.last()),
            es.last().path,
        );
    } else {
        lemma_undo_lines_name_paths(es.drop_last(), k);
        assert(es.drop_last()[k] == es[k]);
        lemma_contains_concat_right(spec_undo_error_lines(es.drop_last()), "\n"@, es[k].path);
        lemma_contains_concat_right(
            spec_undo_error_lines(es.drop_last()) + "\n"@,
            spec_undo_error_line(es.last()),
            es[k].path,
        );
    }
}

/// The aggregate undo failure message reports the exact count restored
/// and names the path of every failure.
pub proof fn lemma_undo_failure_message_reports(restored: nat, es: Seq<UndoErrorView>, k: int)
    requires
        0 <= k < es.len(),
    ensures
        contains_seq(spec_undo_failure_message(restored, es), dec_digits(restored)),
        contains_seq(spec_undo_failure_message(restored, es), es[k].path),
{
    lemma_contains_self(dec_digits(restored));
    lemma_contains_concat_left("Restored "@, dec_digits(restored), dec_digits(restored));
    lemma_contains_concat_right(
        "Restored "@ + dec_digits(restored),
        " files, but some errors occurred:\n"@,
        dec_digits(restored),
    );
    lemma_contains_concat_right(
        "Restored "@ + dec_digits(restored) + " files, but some errors occurred:\n"@,
        spec_undo_error_lines(es),
        dec_digits(restored),
    );
    lemma_undo_lines_name_paths(es, k);
    lemma_contains_concat_left(
        "Restored "@ + dec_digits(restored) + " files, but some errors occurred:\n"@,
        spec_undo_error_lines(es),
        es[k].path,
    );
}

} // verus!
