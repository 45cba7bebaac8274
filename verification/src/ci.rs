//! The re-run-failed-CI review helper: GitHub Actions workflow runs for a
//! PR's head commit, filtered to the re-runnable failures, each asked to
//! re-run only its failed jobs.
//!
//! Honest scope: this can only reach GitHub Actions. A failing check from
//! an external CI system shows in the same checks rollup but has no runs
//! here — the report says so instead of pretending nothing failed.

use vstd::prelude::*;

use crate::codec::{as_str, as_u64, member, Json};
use crate::error::{error_message, ForgeError};
use crate::pr::{malformed, malformed_msg, str_member};
use crate::submit::str_views;
use crate::text::{cat3, str_eq};

verus! {

/// One workflow run for a commit.
#[derive(Debug, Clone, PartialEq, Eq)]
pub struct WorkflowRun {
    pub id: u64,
    /// The workflow this run belongs to; several runs of one workflow can
    /// exist for a single commit (re-triggers), newest first.
    pub workflow_id: u64,
    pub name: String,
    /// GitHub's `status` (`completed`, `in_progress`, `queued`, …).
    pub status: String,
    /// GitHub's `conclusion`; `None` while the run is still going.
    pub conclusion: Option<String>,
}

/// Only a finished run that actually failed has failed jobs to re-run.
pub open spec fn rerunnable_spec(run: WorkflowRun) -> bool {
    run.status@ == "completed"@ && match run.conclusion {
        Some(c) => c@ == "failure"@ || c@ == "cancelled"@ || c@ == "timed_out"@,
        None => false,
    }
}

impl WorkflowRun {
    /// Only a finished run that actually failed has failed jobs to re-run.
    pub fn is_rerunnable(&self) -> (r: bool)
        ensures
            r == rerunnable_spec(*self),
    {
        if !str_eq(self.status.as_str(), "completed") {
            return false;
        }
        match &self.conclusion {
            Some(c) => str_eq(c.as_str(), "failure") || str_eq(c.as_str(), "cancelled") || str_eq(c.as_str(), "timed_out"),
            None => false,
        }
    }
}

/// What one re-run request accomplished, for the UI to tell straight.
#[derive(Debug, Clone, PartialEq, Eq)]
pub struct CiRerunReport {
    /// Workflow runs whose failed jobs were sent back to work.
    pub rerun: Vec<String>,
    /// Failed runs GitHub refused to re-run, as plain per-run stories.
    pub refused: Vec<String>,
}

/// The content of a run.
pub open spec fn run_view(r: WorkflowRun) -> (u64, u64, Seq<char>, Seq<char>, Option<Seq<char>>) {
    (r.id, r.workflow_id, r.name@, r.status@, crate::reconcile::opt_view(r.conclusion))
}

/// The contents of a list of runs.
pub open spec fn run_views(v: Seq<WorkflowRun>) -> Seq<(u64, u64, Seq<char>, Seq<char>, Option<Seq<char>>)> {
    v.map_values(|r: WorkflowRun| run_view(r))
}

/// One run of the answer, or the message of its error: an id is required;
/// the workflow defaults to the run itself, the name to "unnamed
/// workflow", the status to empty.
pub open spec fn run_spec(run: Json) -> Result<(u64, u64, Seq<char>, Seq<char>, Option<Seq<char>>), Seq<char>> {
    match as_u64(member(run, "id"@)) {
        None => Err(malformed_msg("workflow run without an id"@)),
        Some(id) => Ok((
            id,
            match as_u64(member(run, "workflow_id"@)) {
                Some(w) => w,
                None => id,
            },
            match as_str(member(run, "name"@)) {
                Some(n) => n,
                None => "unnamed workflow"@,
            },
            match as_str(member(run, "status"@)) {
                Some(s) => s,
                None => Seq::empty(),
            },
            as_str(member(run, "conclusion"@)),
        )),
    }
}

/// The runs in order, or the first run's error.
pub open spec fn runs_spec(a: Seq<Json>) -> Result<Seq<(u64, u64, Seq<char>, Seq<char>, Option<Seq<char>>)>, Seq<char>>
    decreases a.len(),
{
    if a.len() == 0 {
        Ok(Seq::empty())
    } else {
        match runs_spec(a.drop_last()) {
            Err(m) => Err(m),
            Ok(p) => match run_spec(a.last()) {
                Err(m) => Err(m),
                Ok(r) => Ok(p.push(r)),
            },
        }
    }
}

/// The runs answer, or the message of its error.
pub open spec fn workflow_runs_spec(data: Json) -> Result<Seq<(u64, u64, Seq<char>, Seq<char>, Option<Seq<char>>)>, Seq<char>> {
    match member(data, "workflow_runs"@) {
        Json::Array(a) => runs_spec(a@),
        _ => Err(malformed_msg("workflow_runs missing"@)),
    }
}

/// A string member or a default.
fn str_or(j: &Json, default: &str) -> (r: String)
    ensures
        r@ == match as_str(*j) {
            Some(s) => s,
            None => default@,
        },
{
    match j.str_value() {
        Some(s) => crate::text::owned(s),
        None => crate::text::owned(default),
    }
}

fn parse_run(run: &Json) -> (r: Result<WorkflowRun, ForgeError>)
    ensures
        match r {
            Ok(w) => run_spec(*run) == Ok::<(u64, u64, Seq<char>, Seq<char>, Option<Seq<char>>), Seq<char>>(run_view(w)),
            Err(e) => run_spec(*run) == Err::<(u64, u64, Seq<char>, Seq<char>, Option<Seq<char>>), Seq<char>>(error_message(e)),
        },
{
    let id = match run.get("id").u64_value() {
        Some(id) => id,
        None => return Err(malformed("workflow run without an id")),
    };
    let workflow_id = match run.get("workflow_id").u64_value() {
        Some(w) => w,
        None => id,
    };
    proof {
        reveal_strlit("");
        assert(""@ =~= Seq::<char>::empty());
    }
    let conclusion = match run.get("conclusion").str_value() {
        Some(c) => Some(crate::text::owned(c)),
        None => None,
    };
    Ok(WorkflowRun {
        id,
        workflow_id,
        name: str_or(run.get("name"), "unnamed workflow"),
        status: str_or(run.get("status"), ""),
        conclusion,
    })
}

/// Reshape the workflow-runs answer. Runs the answer is missing an id for
/// are refused, not skipped — a malformed answer should read as such.
pub fn parse_workflow_runs(data: &Json) -> (r: Result<Vec<WorkflowRun>, ForgeError>)
    ensures
        match r {
            Ok(v) => workflow_runs_spec(*data) == Ok::<Seq<(u64, u64, Seq<char>, Seq<char>, Option<Seq<char>>)>, Seq<char>>(run_views(v@)),
            Err(e) => workflow_runs_spec(*data) == Err::<Seq<(u64, u64, Seq<char>, Seq<char>, Option<Seq<char>>)>, Seq<char>>(error_message(e)),
        },
{
    let runs = match data.get("workflow_runs") {
        Json::Array(a) => a,
        _ => return Err(malformed("workflow_runs missing")),
    };
    let mut out: Vec<WorkflowRun> = Vec::new();
    let mut i: usize = 0;
    assert(runs@.take(0) =~= Seq::<Json>::empty());
    assert(run_views(out@) =~= Seq::<(u64, u64, Seq<char>, Seq<char>, Option<Seq<char>>)>::empty());
    while i < runs.len()
        invariant
            i <= runs@.len(),
            member(*data, "workflow_runs"@) == Json::Array(*runs),
            runs_spec(runs@.take(i as int)) == Ok::<Seq<(u64, u64, Seq<char>, Seq<char>, Option<Seq<char>>)>, Seq<char>>(run_views(out@)),
        decreases runs@.len() - i,
    {
        proof {
            let t = runs@.take(i + 1);
            assert(t.drop_last() =~= runs@.take(i as int));
            assert(t.last() == runs@[i as int]);
        }
        match parse_run(&runs[i]) {
            Ok(w) => {
                let ghost before = out@;
                out.push(w);
                assert(run_views(out@) =~= run_views(before).push(run_view(w)));
            },
            Err(e) => {
                proof {
                    lemma_runs_err_prefix(runs@, i + 1, error_message(e));
                }
                return Err(e);
            },
        }
        i += 1;
    }
    assert(runs@.take(runs@.len() as int) =~= runs@);
    Ok(out)
}

/// An error in a prefix of the runs is the error of the whole answer.
proof fn lemma_runs_err_prefix(a: Seq<Json>, k: int, m: Seq<char>)
    requires
        0 <= k <= a.len(),
        runs_spec(a.take(k)) == Err::<Seq<(u64, u64, Seq<char>, Seq<char>, Option<Seq<char>>)>, Seq<char>>(m),
    ensures
        runs_spec(a) == Err::<Seq<(u64, u64, Seq<char>, Seq<char>, Option<Seq<char>>)>, Seq<char>>(m),
    decreases a.len() - k,
{
    if k < a.len() {
        assert(a.take(k + 1).drop_last() =~= a.take(k));
        lemma_runs_err_prefix(a, k + 1, m);
    } else {
        assert(a.take(k) =~= a);
    }
}

/// The run is the latest of its workflow: no earlier entry of the
/// (newest-first) answer belongs to the same workflow.
pub open spec fn latest_of_workflow(runs: Seq<WorkflowRun>, i: int) -> bool {
    forall|j: int| 0 <= j < i ==> #[trigger] runs[j].workflow_id != runs[i].workflow_id
}

/// Positions of the runs worth re-running among the first `k`.
pub open spec fn rerunnable_upto(runs: Seq<WorkflowRun>, k: int) -> Seq<int>
    decreases k,
{
    if k <= 0 {
        Seq::empty()
    } else {
        let p = rerunnable_upto(runs, k - 1);
        if latest_of_workflow(runs, k - 1) && rerunnable_spec(runs[k - 1]) {
            p.push(k - 1)
        } else {
            p
        }
    }
}

/// The failed runs worth re-running: the latest run of each workflow
/// (the answer is newest-first), and only when that latest run is a
/// re-runnable failure.
pub fn rerunnable_runs(runs: &[WorkflowRun]) -> (r: Vec<&WorkflowRun>)
    ensures
        r@.len() == rerunnable_upto(runs@, runs@.len() as int).len(),
        forall|t: int| 0 <= t < r@.len() ==> *(#[trigger] r@[t]) == runs@[rerunnable_upto(runs@, runs@.len() as int)[t]],
{
    let mut out: Vec<&WorkflowRun> = Vec::new();
    let mut i: usize = 0;
    while i < runs.len()
        invariant
            i <= runs@.len(),
            out@.len() == rerunnable_upto(runs@, i as int).len(),
            forall|t: int| 0 <= t < out@.len() ==> *(#[trigger] out@[t]) == runs@[rerunnable_upto(runs@, i as int)[t]],
        decreases runs@.len() - i,
    {
        let mut latest = true;
        let mut j: usize = 0;
        while j < i
            invariant
                j <= i < runs@.len(),
                latest == forall|q: int| 0 <= q < j ==> #[trigger] runs@[q].workflow_id != runs@[i as int].workflow_id,
            decreases i - j,
        {
            if runs[j].workflow_id == runs[i].workflow_id {
                latest = false;
            }
            j += 1;
        }
        if latest && runs[i].is_rerunnable() {
            let ghost before = out@;
            out.push(&runs[i]);
            assert forall|t: int| 0 <= t < out@.len() implies *(#[trigger] out@[t]) == runs@[rerunnable_upto(runs@, i + 1)[t]] by {
                if t < before.len() {
                    assert(out@[t] == before[t]);
                }
            }
        }
        i += 1;
    }
    out
}

/// The forge side of re-running CI, host-implemented over the real
/// client.
///
/// Each request has a name for its answers, which a host may define (one
/// that does not leaves every answer open) and the library assumes nothing
/// of: it only lets a contract say which request an answer came from.
pub trait CiForge {
    /// `r` is what GitHub answers when asked for the runs of `head_sha`.
    closed spec fn runs_answer(&self, head_sha: Seq<char>, r: Result<Vec<WorkflowRun>, ForgeError>) -> bool {
        true
    }

    /// `r` is what GitHub answers when asked to re-run run `run_id`.
    closed spec fn rerun_answer(&self, run_id: u64, r: Result<(), ForgeError>) -> bool {
        true
    }

    /// The workflow runs for a commit, newest first.
    fn workflow_runs(&self, head_sha: &str) -> (r: Result<Vec<WorkflowRun>, ForgeError>)
        ensures
            self.runs_answer(head_sha@, r),
    ;

    /// Ask GitHub to re-run a run's failed jobs.
    fn rerun_failed_jobs(&self, run_id: u64) -> (r: Result<(), ForgeError>)
        ensures
            self.rerun_answer(run_id, r),
    ;
}

/// `answers` are GitHub's answers to the re-run requests of `picked`, one
/// per run, in order.
pub open spec fn reruns_answered<F: CiForge>(forge: &F, picked: Seq<WorkflowRun>, answers: Seq<Result<(), ForgeError>>) -> bool {
    &&& answers.len() == picked.len()
    &&& forall|i: int| 0 <= i < picked.len() ==> #[trigger] forge.rerun_answer(picked[i].id, answers[i])
}

/// The outcome of re-running CI on `head_sha`, given what the runs request
/// answered: its error as it came, or the report of [`rerun_report_spec`]
/// over the re-run candidates and the answers to their requests.
pub open spec fn rerun_told<F: CiForge>(
    forge: &F,
    listed: Result<Vec<WorkflowRun>, ForgeError>,
    r: Result<CiRerunReport, ForgeError>,
) -> bool {
    match listed {
        Err(e) => r == Err::<CiRerunReport, ForgeError>(e),
        Ok(runs) => r matches Ok(report) && exists|answers: Seq<Result<(), ForgeError>>|
            #[trigger] reruns_answered(forge, rerun_candidates(runs@), answers) && rerun_report_spec(
                rerun_candidates(runs@),
                answers,
                rerun_candidates(runs@).len() as int,
            ) == (str_views(report.rerun@), str_views(report.refused@)),
    }
}

/// Record what GitHub answered one re-run request: a run it accepted goes
/// to `rerun` by name; a refused one to `refused` as "name: reason".
pub fn note_rerun(report: &mut CiRerunReport, run: &WorkflowRun, answer: Result<(), ForgeError>)
    ensures
        match answer {
            Ok(()) => final(report).rerun@ == old(report).rerun@.push(run.name) && final(report).refused@
                == old(report).refused@,
            Err(e) => final(report).rerun@ == old(report).rerun@ && final(report).refused@.len()
                == old(report).refused@.len() + 1 && final(report).refused@.drop_last() == old(report).refused@
                && final(report).refused@.last()@ == run.name@ + ": "@ + error_message(e),
        },
{
    match answer {
        Ok(()) => report.rerun.push(run.name.clone()),
        Err(e) => {
            let line = cat3(run.name.as_str(), ": ", e.message().as_str());
            report.refused.push(line);
            proof {
                reveal_strlit(": ");
            }
        },
    }
}

/// The runs worth re-running among a commit's runs, in answer order.
pub open spec fn rerun_candidates(runs: Seq<WorkflowRun>) -> Seq<WorkflowRun> {
    rerunnable_upto(runs, runs.len() as int).map_values(|i: int| runs[i])
}

/// The report after asking GitHub to re-run the first `n` candidates, given
/// what it answered each request: accepted runs by name in `.0`, refused
/// ones as "name: reason" in `.1`.
pub open spec fn rerun_report_spec(
    picked: Seq<WorkflowRun>,
    answers: Seq<Result<(), ForgeError>>,
    n: int,
) -> (Seq<Seq<char>>, Seq<Seq<char>>)
    decreases n,
{
    if n <= 0 {
        (Seq::empty(), Seq::empty())
    } else {
        let prior = rerun_report_spec(picked, answers, n - 1);
        match answers[n - 1] {
            Ok(()) => (prior.0.push(picked[n - 1].name@), prior.1),
            Err(e) => (prior.0, prior.1.push(picked[n - 1].name@ + ": "@ + error_message(e))),
        }
    }
}

/// Re-run the failed jobs of every failed workflow run on one commit.
/// Empty `rerun` and `refused` mean Actions has no failed runs for the
/// commit — the failing check comes from somewhere Actions' API cannot
/// reach. Each re-runnable run lands in exactly one of the lists: whatever
/// GitHub lists and answers, the report is [`rerun_report_spec`] of the
/// candidates among the listed runs and the answers to their requests.
pub fn rerun_failed_ci<F: CiForge>(forge: &F, head_sha: &str) -> (r: Result<CiRerunReport, ForgeError>)
    ensures
        exists|listed: Result<Vec<WorkflowRun>, ForgeError>|
            #[trigger] forge.runs_answer(head_sha@, listed) && rerun_told(forge, listed, r),
{
    let listed = forge.workflow_runs(head_sha);
    let ghost answered_runs = listed;
    let runs = match listed {
        Ok(r) => r,
        Err(e) => {
            assert(forge.runs_answer(head_sha@, answered_runs) && rerun_told(forge, answered_runs, Err(e)));
            return Err(e);
        },
    };
    let picked = rerunnable_runs(runs.as_slice());
    let ghost cands = rerun_candidates(runs@);
    assert(cands.len() == picked@.len());
    let mut report = CiRerunReport { rerun: Vec::new(), refused: Vec::new() };
    let ghost mut answers: Seq<Result<(), ForgeError>> = Seq::empty();
    assert(str_views(report.rerun@) =~= Seq::<Seq<char>>::empty());
    assert(str_views(report.refused@) =~= Seq::<Seq<char>>::empty());
    let mut i: usize = 0;
    while i < picked.len()
        invariant
            i <= picked@.len(),
            cands == rerun_candidates(runs@),
            cands.len() == picked@.len(),
            forall|t: int| 0 <= t < picked@.len() ==> *(#[trigger] picked@[t]) == cands[t],
            answers.len() == i,
            forall|t: int| 0 <= t < i ==> #[trigger] forge.rerun_answer(cands[t].id, answers[t]),
            rerun_report_spec(cands, answers, i as int) == (str_views(report.rerun@), str_views(report.refused@)),
        decreases picked@.len() - i,
    {
        let run = picked[i];
        assert(*run == cands[i as int]);
        let answer = forge.rerun_failed_jobs(run.id);
        let ghost prior = answers;
        let ghost before_rerun = report.rerun@;
        let ghost before_refused = report.refused@;
        proof {
            answers = answers.push(answer);
            lemma_report_prefix(cands, answers, i as int);
            assert(answers.take(i as int) =~= prior);
        }
        note_rerun(&mut report, run, answer);
        proof {
            match answers[i as int] {
                Ok(()) => {
                    assert(str_views(report.rerun@) =~= str_views(before_rerun).push(run.name@));
                },
                Err(e) => {
                    assert(str_views(report.refused@) =~= str_views(before_refused).push(
                        run.name@ + ": "@ + error_message(e),
                    ));
                },
            }
        }
        i += 1;
    }
    assert(reruns_answered(forge, cands, answers));
    assert(forge.runs_answer(head_sha@, answered_runs) && rerun_told(forge, answered_runs, Ok(report)));
    Ok(report)
}

/// The report on the first `n` requests reads only the first `n` answers.
proof fn lemma_report_prefix(picked: Seq<WorkflowRun>, answers: Seq<Result<(), ForgeError>>, n: int)
    requires
        0 <= n <= answers.len(),
    ensures
        rerun_report_spec(picked, answers.take(n), n) == rerun_report_spec(picked, answers, n),
    decreases n,
{
    if n > 0 {
        lemma_report_prefix(picked, answers.take(n), n - 1);
        lemma_report_prefix(picked, answers, n - 1);
        assert(answers.take(n).take(n - 1) =~= answers.take(n - 1));
    }
}

} // verus!
