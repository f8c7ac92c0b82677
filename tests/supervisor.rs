use app_center::operation::OperationKind;
use app_center::supervisor::{
    join_diagnostic, Fault, OperationResult, ProgressEvent, Step, StreamOrigin, Supervisor,
    SupervisorInput,
};

fn line(origin: StreamOrigin, text: &str) -> SupervisorInput {
    SupervisorInput::Line { origin, text: text.to_string() }
}

fn closed(origin: StreamOrigin) -> SupervisorInput {
    SupervisorInput::StreamClosed { origin }
}

fn is_final(step: &Step) -> bool {
    matches!(&step.event, Some(ProgressEvent::Fraction { percent: 100, label }) if label == "100%")
}

fn is_quiet(step: &Step) -> bool {
    step.event.is_none() && step.result.is_none()
}

#[test]
fn start_shows_zero_and_a_starting_text() {
    let (_, first) = Supervisor::start(OperationKind::Install);
    assert!(matches!(first, ProgressEvent::Fraction { percent: 0, ref label } if label == "Starting installation..."));
    let (_, first) = Supervisor::start(OperationKind::Uninstall);
    assert!(matches!(first, ProgressEvent::Fraction { percent: 0, ref label } if label == "Starting uninstallation..."));
}

#[test]
fn silent_process_gives_pulses_then_full_progress_and_success() {
    let (mut s, _) = Supervisor::start(OperationKind::Install);
    // Three seconds of silence at one tick every 200 ms.
    for _ in 0..15 {
        let step = s.handle(SupervisorInput::Tick);
        assert!(matches!(step.event, Some(ProgressEvent::Pulse { .. })));
        assert!(step.result.is_none());
    }
    assert!(is_quiet(&s.handle(SupervisorInput::Exited { success: true, code: Some(0) })));
    assert!(is_quiet(&s.handle(closed(StreamOrigin::Stdout))));
    let last = s.handle(closed(StreamOrigin::Stderr));
    assert!(is_final(&last));
    assert!(matches!(last.result, Some(OperationResult::Success)));
    assert!(s.is_finished());
}

#[test]
fn failing_process_reports_its_code_and_error_output() {
    let (mut s, _) = Supervisor::start(OperationKind::Install);
    assert!(is_quiet(&s.handle(line(StreamOrigin::Stderr, "error: target not found"))));
    assert!(is_quiet(&s.handle(closed(StreamOrigin::Stdout))));
    assert!(is_quiet(&s.handle(closed(StreamOrigin::Stderr))));
    let last = s.handle(SupervisorInput::Exited { success: false, code: Some(1) });
    assert!(is_final(&last));
    match last.result {
        Some(OperationResult::Failure { exit_code, diagnostic }) => {
            assert_eq!(exit_code, Some(1));
            assert_eq!(diagnostic, "error: target not found");
        }
        other => panic!("unexpected result {:?}", other),
    }
}

#[test]
fn diagnostic_joins_every_error_line_in_order() {
    let (mut s, _) = Supervisor::start(OperationKind::Uninstall);
    s.handle(line(StreamOrigin::Stderr, "warning: one"));
    s.handle(line(StreamOrigin::Stdout, "ignored on stdout"));
    s.handle(line(StreamOrigin::Stderr, "error: two"));
    s.handle(line(StreamOrigin::Stderr, ""));
    s.handle(line(StreamOrigin::Stderr, "error: three"));
    assert_eq!(s.diagnostics().len(), 4);
    s.handle(SupervisorInput::Exited { success: false, code: None });
    s.handle(closed(StreamOrigin::Stderr));
    let last = s.handle(closed(StreamOrigin::Stdout));
    match last.result {
        Some(OperationResult::Failure { exit_code, diagnostic }) => {
            assert_eq!(exit_code, None);
            assert_eq!(diagnostic, "warning: one\nerror: two\n\nerror: three");
        }
        other => panic!("unexpected result {:?}", other),
    }
}

#[test]
fn progress_lines_from_either_stream_become_events() {
    let (mut s, _) = Supervisor::start(OperationKind::Install);
    let step = s.handle(line(StreamOrigin::Stdout, "downloading foo-1.2.pkg.tar.zst (42%)"));
    assert!(matches!(step.event, Some(ProgressEvent::Fraction { percent: 42, ref label }) if label == "42%"));
    let step = s.handle(line(StreamOrigin::Stderr, "[###-------] 30%"));
    assert!(matches!(step.event, Some(ProgressEvent::Fraction { percent: 30, ref label }) if label == "30%"));
    assert_eq!(s.diagnostics().len(), 1);
    // Real progress is showing: ticks stay silent.
    assert!(is_quiet(&s.handle(SupervisorInput::Tick)));
}

#[test]
fn pulse_labels_cycle_every_five_ticks() {
    let (mut s, _) = Supervisor::start(OperationKind::Install);
    let mut labels: Vec<Option<String>> = Vec::new();
    for _ in 0..20 {
        match s.handle(SupervisorInput::Tick).event {
            Some(ProgressEvent::Pulse { label }) => labels.push(label),
            other => panic!("unexpected event {:?}", other),
        }
    }
    assert_eq!(labels[4].as_deref(), Some("Installing."));
    assert_eq!(labels[9].as_deref(), Some("Installing.."));
    assert_eq!(labels[14].as_deref(), Some("Installing..."));
    assert_eq!(labels[19].as_deref(), Some("Installing"));
    for (i, l) in labels.iter().enumerate() {
        if (i + 1) % 5 != 0 {
            assert!(l.is_none());
        }
    }
    let (mut u, _) = Supervisor::start(OperationKind::Uninstall);
    for _ in 0..4 {
        u.handle(SupervisorInput::Tick);
    }
    match u.handle(SupervisorInput::Tick).event {
        Some(ProgressEvent::Pulse { label }) => assert_eq!(label.as_deref(), Some("Uninstalling.")),
        other => panic!("unexpected event {:?}", other),
    }
}

#[test]
fn zero_percent_keeps_pulsing() {
    let (mut s, _) = Supervisor::start(OperationKind::Install);
    s.handle(line(StreamOrigin::Stdout, "[----] 0%"));
    assert!(matches!(s.handle(SupervisorInput::Tick).event, Some(ProgressEvent::Pulse { .. })));
}

#[test]
fn exit_stops_pulses_before_streams_end() {
    let (mut s, _) = Supervisor::start(OperationKind::Install);
    s.handle(SupervisorInput::Exited { success: true, code: Some(0) });
    assert!(s.is_shut_down());
    assert!(!s.is_finished());
    assert!(is_quiet(&s.handle(SupervisorInput::Tick)));
    // Lines still draining after the exit are read.
    let step = s.handle(line(StreamOrigin::Stdout, "[####] 100%"));
    assert!(matches!(step.event, Some(ProgressEvent::Fraction { percent: 100, .. })));
    // A second exit report changes nothing.
    assert!(is_quiet(&s.handle(SupervisorInput::Exited { success: false, code: Some(3) })));
    s.handle(closed(StreamOrigin::Stdout));
    let last = s.handle(closed(StreamOrigin::Stderr));
    assert!(matches!(last.result, Some(OperationResult::Success)));
}

#[test]
fn spawn_failure_ends_at_once_and_stops_pulses() {
    let (mut s, _) = Supervisor::start(OperationKind::Install);
    let step = s.handle(SupervisorInput::Failed {
        fault: Fault::Spawn,
        detail: "No such file or directory (os error 2)".to_string(),
    });
    assert!(is_final(&step));
    match step.result {
        Some(OperationResult::Failure { exit_code, diagnostic }) => {
            assert_eq!(exit_code, None);
            assert_eq!(diagnostic, "Failed to spawn pacman: No such file or directory (os error 2)");
        }
        other => panic!("unexpected result {:?}", other),
    }
    assert!(s.is_shut_down());
    assert!(is_quiet(&s.handle(SupervisorInput::Tick)));
}

#[test]
fn other_faults_name_what_failed() {
    let cases = [
        (OperationKind::Install, Fault::CaptureStdout, "", "Failed to capture stdout"),
        (OperationKind::Install, Fault::CaptureStderr, "", "Failed to capture stderr"),
        (OperationKind::Install, Fault::Wait, "interrupted", "Installation failed: interrupted"),
        (OperationKind::RefreshAndUpgrade, Fault::Wait, "x", "Installation failed: x"),
        (OperationKind::Uninstall, Fault::Wait, "x", "Uninstallation failed: x"),
    ];
    for (kind, fault, detail, expected) in cases {
        let (mut s, _) = Supervisor::start(kind);
        let step = s.handle(SupervisorInput::Failed { fault, detail: detail.to_string() });
        match step.result {
            Some(OperationResult::Failure { exit_code: None, diagnostic }) => assert_eq!(diagnostic, expected),
            other => panic!("unexpected result {:?}", other),
        }
    }
}

#[test]
fn finished_operation_ignores_everything() {
    let (mut s, _) = Supervisor::start(OperationKind::Install);
    s.handle(SupervisorInput::Failed { fault: Fault::Spawn, detail: "x".to_string() });
    assert!(is_quiet(&s.handle(line(StreamOrigin::Stderr, "[##] 50%"))));
    assert!(is_quiet(&s.handle(SupervisorInput::Exited { success: true, code: Some(0) })));
    assert!(is_quiet(&s.handle(closed(StreamOrigin::Stdout))));
    assert!(is_quiet(&s.handle(closed(StreamOrigin::Stderr))));
    assert!(is_quiet(&s.handle(SupervisorInput::Failed { fault: Fault::Wait, detail: "y".to_string() })));
    assert!(s.diagnostics().is_empty());
}

#[test]
fn join_of_no_lines_is_empty() {
    assert_eq!(join_diagnostic(&Vec::new()), "");
    assert_eq!(join_diagnostic(&vec!["a".to_string()]), "a");
    assert_eq!(join_diagnostic(&vec!["a".to_string(), "b".to_string()]), "a\nb");
}
