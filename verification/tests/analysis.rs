use crate_library::analysis::{
    analysis_error_outcome, analysis_precheck, checks_cancellation_at, complete_analysis,
    failure_result, next_task_step, success_result, worker_limit_for, AnalysisResult, RunOutcome,
    TaskAction, TaskEvent, TaskRegistry, TaskStep, ANALYSIS_WORKER_LIMIT_MAX,
};
use crate_library::error::CrateError;

#[test]
fn worker_limit_is_never_zero_and_never_above_the_cap() {
    let hosts = [
        None,
        Some(0),
        Some(1),
        Some(2),
        Some(3),
        Some(4),
        Some(7),
        Some(8),
        Some(9),
        Some(16),
        Some(128),
        Some(usize::MAX),
    ];
    for cores in hosts {
        let limit = worker_limit_for(cores);

        assert!(limit >= 1, "a zero limit would stall the queue forever");
        assert!(limit <= ANALYSIS_WORKER_LIMIT_MAX);
    }
}

#[test]
fn worker_limit_is_half_the_cores_clamped() {
    assert_eq!(worker_limit_for(None), 2);
    assert_eq!(worker_limit_for(Some(0)), 1);
    assert_eq!(worker_limit_for(Some(1)), 1);
    assert_eq!(worker_limit_for(Some(2)), 1);
    assert_eq!(worker_limit_for(Some(5)), 2);
    assert_eq!(worker_limit_for(Some(6)), 3);
    assert_eq!(worker_limit_for(Some(8)), 4);
    assert_eq!(worker_limit_for(Some(32)), 4);
}

#[test]
fn worker_limit_never_shrinks_with_more_cores() {
    let mut previous = worker_limit_for(Some(0));
    for cores in 1..100usize {
        let limit = worker_limit_for(Some(cores));
        assert!(limit >= previous);
        previous = limit;
    }
}

#[test]
fn get_existing_analysis_only_returns_a_complete_pair() {
    let conn = rusqlite::Connection::open_in_memory().unwrap();
    conn.execute_batch("CREATE TABLE tracks (id TEXT PRIMARY KEY, bpm REAL, key TEXT)")
        .unwrap();

    let insert = |id: &str, bpm: Option<f64>, key: Option<&str>| {
        conn.execute(
            "INSERT INTO tracks (id, bpm, key) VALUES (?1, ?2, ?3)",
            (id, bpm, key),
        )
        .unwrap();
    };
    insert("complete", Some(120.0), Some("Am"));
    insert("bpm-only", Some(120.0), None);
    insert("neither", None, None);

    let existing = |id: &str| -> Option<(f64, String)> {
        let (bpm, key): (Option<f64>, Option<String>) = conn
            .query_row("SELECT bpm, key FROM tracks WHERE id = ?1", [id], |row| {
                Ok((row.get(0)?, row.get(1)?))
            })
            .unwrap();
        complete_analysis(bpm, key)
    };

    assert_eq!(existing("complete"), Some((120.0, "Am".to_string())));
    assert!(existing("bpm-only").is_none());
    assert!(existing("neither").is_none());
}

#[test]
fn key_without_bpm_is_not_complete() {
    assert_eq!(complete_analysis::<f64>(None, Some("Am".to_string())), None);
}

#[test]
fn cancellation_is_checked_every_hundred_packets() {
    assert!(checks_cancellation_at(0));
    assert!(!checks_cancellation_at(1));
    assert!(!checks_cancellation_at(99));
    assert!(checks_cancellation_at(100));
    assert!(checks_cancellation_at(300));
    assert!(!checks_cancellation_at(301));
}

#[test]
fn missing_file_gives_a_failed_result() {
    let r = analysis_precheck::<f64>("t1", "/music/a.mp3", false, false);
    match r {
        Some(Ok(res)) => {
            assert_eq!(res.track_id, "t1");
            assert!(!res.success);
            assert_eq!(res.bpm, None);
            assert_eq!(res.key, None);
            assert_eq!(res.error.as_deref(), Some("File not found: /music/a.mp3"));
        }
        _ => panic!("a missing file must give a failed result"),
    }
}

#[test]
fn cancelled_run_gives_the_cancellation_error() {
    let r = analysis_precheck::<f64>("t1", "/music/a.mp3", true, true);
    assert!(matches!(r, Some(Err(CrateError::Analysis(ref m))) if m == "Cancelled"));
    assert!(analysis_precheck::<f64>("t1", "/music/a.mp3", true, false).is_none());
}

#[test]
fn dsp_failure_is_a_failed_result_unless_cancelled() {
    let r = analysis_error_outcome::<f64>("t2", "Decode error: bad frame");
    match r {
        Ok(res) => {
            assert!(!res.success);
            assert_eq!(res.error.as_deref(), Some("Decode error: bad frame"));
        }
        Err(_) => panic!("a decode failure is reported as a result"),
    }
    let c = analysis_error_outcome::<f64>("t2", "Analysis error: Cancelled");
    assert!(matches!(c, Err(CrateError::Analysis(ref m)) if m == "Cancelled"));
}

#[test]
fn results_carry_their_fields() {
    let ok: AnalysisResult<f64> = success_result("t3", Some(128.0), Some("8A".to_string()));
    assert!(ok.success);
    assert_eq!(ok.track_id, "t3");
    assert_eq!(ok.bpm, Some(128.0));
    assert_eq!(ok.key.as_deref(), Some("8A"));
    assert!(ok.error.is_none());
    let failed: AnalysisResult<f64> = failure_result("t3", "boom");
    assert!(!failed.success);
    assert_eq!(failed.error.as_deref(), Some("boom"));
}

fn run_task(force: bool, cancelled_at_start: bool, complete: bool, acquired: bool, outcome: RunOutcome) -> Vec<&'static str> {
    let mut names = Vec::new();
    let mut step = TaskStep::Start;
    let (s, a) = next_task_step(step, force, TaskEvent::Started { cancelled: cancelled_at_start });
    step = s;
    names.push(action_name(&a));
    if step == TaskStep::Lookup {
        let (s, a) = next_task_step(step, force, TaskEvent::ExistingChecked { complete });
        step = s;
        names.push(action_name(&a));
    }
    if step == TaskStep::Queued {
        let (s, a) = next_task_step(step, force, TaskEvent::SlotWaited { acquired });
        step = s;
        names.push(action_name(&a));
    }
    if step == TaskStep::Running {
        let (s, a) = next_task_step(step, force, TaskEvent::Ran { cancelled: false, outcome });
        step = s;
        names.push(action_name(&a));
    }
    assert_eq!(step, TaskStep::Done);
    names
}

fn action_name(a: &TaskAction) -> &'static str {
    match a {
        TaskAction::EmitCancelled => "cancelled",
        TaskAction::LookUpExisting => "lookup",
        TaskAction::EmitSkipped => "skipped",
        TaskAction::WaitForSlot => "wait",
        TaskAction::EmitAnalyzingAndRun => "run",
        TaskAction::EmitCompleted => "completed",
        TaskAction::EmitFailed(_) => "failed",
    }
}

#[test]
fn an_analyzed_track_is_skipped_without_waiting_for_a_slot() {
    assert_eq!(run_task(false, false, true, true, RunOutcome::Finished), vec!["lookup", "skipped"]);
}

#[test]
fn force_reanalyzes_an_analyzed_track() {
    assert_eq!(
        run_task(true, false, true, true, RunOutcome::Finished),
        vec!["wait", "run", "completed"]
    );
}

#[test]
fn a_task_cancelled_before_start_or_while_queued_emits_cancelled() {
    assert_eq!(run_task(false, true, false, true, RunOutcome::Finished), vec!["cancelled"]);
    assert_eq!(
        run_task(false, false, false, false, RunOutcome::Finished),
        vec!["lookup", "wait", "cancelled"]
    );
}

#[test]
fn a_panicked_run_fails_with_its_message() {
    let (step, action) = next_task_step(
        TaskStep::Running,
        false,
        TaskEvent::Ran { cancelled: false, outcome: RunOutcome::Panicked("join error".to_string()) },
    );
    assert_eq!(step, TaskStep::Done);
    match action {
        TaskAction::EmitFailed(m) => assert_eq!(m, "Task panicked: join error"),
        _ => panic!("a panicked run must fail"),
    }
    let (_, cancelled) = next_task_step(
        TaskStep::Running,
        false,
        TaskEvent::Ran { cancelled: true, outcome: RunOutcome::Failed("x".to_string()) },
    );
    assert!(matches!(cancelled, TaskAction::EmitCancelled));
}

#[test]
fn cancelling_a_track_twice_finds_its_task_once() {
    let mut reg: TaskRegistry<u32> = TaskRegistry::new();
    assert_eq!(reg.insert("a".to_string(), 1), None);
    assert_eq!(reg.insert("b".to_string(), 2), None);
    assert_eq!(reg.insert("a".to_string(), 3), Some(1));
    assert!(reg.contains("a"));
    assert_eq!(reg.remove("a"), Some(3));
    assert_eq!(reg.remove("a"), None);
    assert!(!reg.contains("a"));
    assert!(reg.contains("b"));
    let mut all = reg.drain();
    all.sort();
    assert_eq!(all, vec![2]);
    assert!(!reg.contains("b"));
}
