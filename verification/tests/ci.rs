use std::cell::RefCell;

use jiji_forge::ci::{parse_workflow_runs, rerun_failed_ci, rerunnable_runs, CiForge, WorkflowRun};
use jiji_forge::codec::Json;
use jiji_forge::github::read_answer;
use jiji_forge::error::ForgeError;

fn json(text: &str) -> Json {
    read_answer("GET", "test", 200, text).expect("test JSON parses")
}

fn run(id: u64, workflow_id: u64, status: &str, conclusion: Option<&str>) -> WorkflowRun {
    WorkflowRun {
        id,
        workflow_id,
        name: format!("wf-{workflow_id}"),
        status: status.to_owned(),
        conclusion: conclusion.map(str::to_owned),
    }
}

#[test]
fn parses_the_runs_answer() {
    let runs = parse_workflow_runs(&json(
        r#"{
        "workflow_runs": [
            { "id": 11, "workflow_id": 1, "name": "ci", "status": "completed", "conclusion": "failure" },
            { "id": 12, "workflow_id": 2, "name": "docs", "status": "in_progress", "conclusion": null }
        ]
    }"#,
    ))
    .unwrap();
    assert_eq!(runs.len(), 2);
    assert_eq!(runs[0].name, "ci");
    assert!(runs[0].is_rerunnable());
    assert!(!runs[1].is_rerunnable());

    let err = parse_workflow_runs(&json("{}")).unwrap_err();
    assert_eq!(err.code(), "api_failed");
}

#[test]
fn only_final_failures_are_rerunnable() {
    assert!(run(1, 1, "completed", Some("failure")).is_rerunnable());
    assert!(run(1, 1, "completed", Some("cancelled")).is_rerunnable());
    assert!(run(1, 1, "completed", Some("timed_out")).is_rerunnable());
    assert!(!run(1, 1, "completed", Some("success")).is_rerunnable());
    assert!(!run(1, 1, "completed", Some("skipped")).is_rerunnable());
    assert!(!run(1, 1, "in_progress", None).is_rerunnable());
    assert!(!run(1, 1, "queued", None).is_rerunnable());
}

#[test]
fn superseded_failures_are_not_rerun() {
    // Workflow 1 failed once, then a newer run passed: nothing to do.
    // Workflow 2's latest run failed: that one re-runs.
    let runs = vec![
        run(31, 1, "completed", Some("success")),
        run(32, 2, "completed", Some("failure")),
        run(30, 1, "completed", Some("failure")),
    ];
    let rerunnable = rerunnable_runs(&runs);
    assert_eq!(rerunnable.len(), 1);
    assert_eq!(rerunnable[0].id, 32);

    // A still-running latest attempt also supersedes its old failure.
    let runs = vec![run(41, 1, "in_progress", None), run(40, 1, "completed", Some("failure"))];
    assert!(rerunnable_runs(&runs).is_empty());
}

struct StubCi {
    runs: Vec<WorkflowRun>,
    refuse: u64,
    calls: RefCell<Vec<String>>,
}

impl CiForge for StubCi {
    fn workflow_runs(&self, head_sha: &str) -> Result<Vec<WorkflowRun>, ForgeError> {
        self.calls.borrow_mut().push(format!("runs:{head_sha}"));
        Ok(self.runs.clone())
    }
    fn rerun_failed_jobs(&self, run_id: u64) -> Result<(), ForgeError> {
        self.calls.borrow_mut().push(format!("rerun:{run_id}"));
        if run_id == self.refuse {
            Err(ForgeError::AuthFailed("Resource not accessible".into()))
        } else {
            Ok(())
        }
    }
}

#[test]
fn rerun_reports_each_failed_run_once() {
    let forge = StubCi {
        runs: vec![
            run(52, 2, "completed", Some("failure")),
            run(51, 1, "completed", Some("timed_out")),
            run(50, 1, "completed", Some("failure")),
            run(53, 3, "completed", Some("success")),
        ],
        refuse: 51,
        calls: RefCell::new(vec![]),
    };
    let report = rerun_failed_ci(&forge, "abc").unwrap();
    assert_eq!(report.rerun, vec!["wf-2".to_string()]);
    assert_eq!(report.refused, vec!["wf-1: GitHub rejected the token: Resource not accessible".to_string()]);
    assert_eq!(*forge.calls.borrow(), vec!["runs:abc", "rerun:52", "rerun:51"]);
}

#[test]
fn runs_without_an_id_are_refused() {
    let err = parse_workflow_runs(&json(r#"{ "workflow_runs": [ { "workflow_id": 1 } ] }"#)).unwrap_err();
    assert_eq!(err.code(), "api_failed");
    let runs = parse_workflow_runs(&json(r#"{ "workflow_runs": [ { "id": 9, "workflow_id": 4 } ] }"#)).unwrap();
    assert_eq!(runs[0].name, "unnamed workflow");
    assert_eq!(runs[0].status, "");
    assert_eq!(runs[0].conclusion, None);
}
