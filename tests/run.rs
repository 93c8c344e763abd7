use otterpack::{
    exit_outcome, plan_conversion, progress_label, AppStatus, AudioFormat, ConversionRun, PackError, ProcessProgress,
    ProgressInfo, RunAction, RunPhase, StatusBoard,
};

fn names(v: &[&str]) -> Vec<String> {
    v.iter().map(|s| s.to_string()).collect()
}

#[test]
fn three_successful_jobs_then_finished() {
    let plan = plan_conversion(&names(&["a.flac", "b.flac", "c.flac"]), AudioFormat::FLAC, false, false);
    let (mut run, first) = ConversionRun::start(plan);
    let mut actions = vec![first];
    while !run.is_done() {
        actions.push(run.advance(exit_outcome(Some(0))));
    }
    assert_eq!(
        actions,
        vec![RunAction::Convert(0), RunAction::Convert(1), RunAction::Convert(2), RunAction::Finished]
    );
    let terminal = actions.iter().filter(|a| matches!(a, RunAction::Finished | RunAction::Failed(_))).count();
    assert_eq!(terminal, 1);
}

#[test]
fn failure_on_second_of_five_stops_the_run() {
    let entries = names(&["1.flac", "2.flac", "3.flac", "4.flac", "5.flac"]);
    let plan = plan_conversion(&entries, AudioFormat::WAV, false, false);
    let (mut run, first) = ConversionRun::start(plan);
    assert_eq!(first, RunAction::Convert(0));
    assert_eq!(run.advance(exit_outcome(Some(0))), RunAction::Convert(1));
    let last = run.advance(exit_outcome(Some(3)));
    assert_eq!(last, RunAction::Failed(PackError::EncodeFailed { code: Some(3) }));
    assert!(run.is_done());
    assert_eq!(run.phase(), RunPhase::Done);
}

#[test]
fn project_run_writes_manifest_last() {
    let plan = plan_conversion(&names(&["a.flac"]), AudioFormat::Audacity, false, false);
    let (mut run, first) = ConversionRun::start(plan);
    assert_eq!(first, RunAction::Convert(0));
    assert_eq!(run.advance(Ok(())), RunAction::WriteManifest);
    assert_eq!(run.phase(), RunPhase::Exporting);
    assert_eq!(run.advance(Ok(())), RunAction::Finished);
}

#[test]
fn manifest_failure_fails_the_run() {
    let plan = plan_conversion(&names(&[]), AudioFormat::Audacity, false, false);
    let (mut run, first) = ConversionRun::start(plan);
    assert_eq!(first, RunAction::WriteManifest);
    let e = PackError::ExportFailed { message: "disk full".to_string() };
    assert_eq!(run.advance(Err(e.clone())), RunAction::Failed(e));
}

#[test]
fn empty_run_finishes_at_once() {
    let plan = plan_conversion(&names(&["ffmpeg.exe"]), AudioFormat::FLAC, false, false);
    let (run, first) = ConversionRun::start(plan);
    assert_eq!(first, RunAction::Finished);
    assert!(run.is_done());
    assert!(run.plan().jobs.is_empty());
}

#[test]
fn spawn_failure_ends_the_run() {
    let plan = plan_conversion(&names(&["a.flac", "b.flac"]), AudioFormat::FLAC, false, true);
    let (mut run, first) = ConversionRun::start(plan);
    assert_eq!(first, RunAction::Convert(0));
    let e = PackError::SpawnFailed { message: "permission denied".to_string() };
    assert_eq!(run.advance(Err(e.clone())), RunAction::Failed(e));
}

#[test]
fn exit_codes_are_classified() {
    assert_eq!(exit_outcome(Some(0)), Ok(()));
    assert_eq!(exit_outcome(Some(1)), Err(PackError::EncodeFailed { code: Some(1) }));
    assert_eq!(exit_outcome(None), Err(PackError::EncodeFailed { code: None }));
}

#[test]
fn error_messages() {
    assert_eq!(PackError::EncodeFailed { code: Some(1) }.message(), "ffmpeg failed with exit code 1");
    assert_eq!(PackError::EncodeFailed { code: Some(-1073741515) }.message(), "ffmpeg failed with exit code -1073741515");
    assert_eq!(PackError::EncodeFailed { code: Some(255) }.message(), "ffmpeg failed with exit code 255");
    assert_eq!(PackError::EncodeFailed { code: None }.message(), "ffmpeg was terminated before it exited");
    assert_eq!(
        PackError::MissingBinary { path: "/tmp/x/ffmpeg.exe".to_string() }.message(),
        "ffmpeg.exe not found at /tmp/x/ffmpeg.exe"
    );
    assert_eq!(
        PackError::NoBundledArchive.message(),
        "This executable does not have a bundled ZIP file. Please use a properly packaged version."
    );
    assert_eq!(
        PackError::MissingDebugFolder.message(),
        "No _otterpack folder or embedded ZIP found. In debug mode, place ffmpeg.exe in the _otterpack folder."
    );
    assert_eq!(PackError::Io { message: "boom".to_string() }.message(), "boom");
    assert_eq!(
        PackError::UnreadableEntry { name: "a.txt".to_string() }.message(),
        "Failed to read archive entry: a.txt"
    );
}

#[test]
fn status_board_follows_events() {
    let mut board = StatusBoard::ready();
    assert_eq!(board.status, AppStatus::Ready);
    board.begin();
    assert_eq!(board.status, AppStatus::Processing);
    assert!(board.listening);
    let info = ProgressInfo { filename: "b.flac".to_string(), current: 1, total: 3 };
    assert_eq!(progress_label(&info), "Converting file 2 of 3: b.flac");
    board.receive(ProcessProgress::Processing(info.clone()));
    assert_eq!(board.progress, Some(info));
    board.receive(ProcessProgress::Error(PackError::EncodeFailed { code: Some(2) }));
    assert_eq!(board.status, AppStatus::Error("Failed to process: ffmpeg failed with exit code 2".to_string()));
    assert_eq!(board.progress, None);
    assert!(!board.listening);
}

#[test]
fn status_board_done_and_setup_failure() {
    let mut board = StatusBoard::ready();
    board.begin();
    board.receive(ProcessProgress::Finished);
    assert_eq!(board.status, AppStatus::Done);
    assert!(!board.listening);
    let failed = StatusBoard::setup_failed(&PackError::NoBundledArchive);
    assert_eq!(
        failed.status,
        AppStatus::Error(
            "Failed to setup resources: This executable does not have a bundled ZIP file. Please use a properly packaged version."
                .to_string()
        )
    );
}
