use up::command_runner::{
    classify, compute_layout, get_max_command_length, label_write, launch_plan, rest_position,
    status_text, status_write, stderr_first_line, CommandRunnerError, ExecutionOutcome,
    ProcessEvent,
};

#[test]
fn stderr_first_line_works_as_expected() {
    let lines = ["hello, world", "hello,\nworld", ""];
    let expected = ["hello, world", "hello,", ""];
    for i in 0..lines.len() {
        let line: Vec<u8> = lines[i].into();
        assert_eq!(stderr_first_line(line), expected[i]);
    }
}

#[test]
fn stderr_first_line_trims_whitespace() {
    let bytes: Vec<u8> = "  boom \t\nsecond line".into();
    assert_eq!(stderr_first_line(bytes), "boom");
}

#[test]
fn stderr_first_line_of_invalid_utf8_is_empty() {
    let bytes: Vec<u8> = vec![0xff, 0xfe, b'x'];
    assert_eq!(stderr_first_line(bytes), "");
}

#[test]
fn check_get_max_command_length() {
    let commands = [
        ("hello".to_string(), "command".to_string()),
        ("world".to_string(), "command".to_string()),
        (String::new(), "command".to_string()),
        ("two".to_string(), "command".to_string()),
        (
            "very long command name yes yes yes".to_string(),
            "command".to_string(),
        ),
    ];
    assert_eq!(get_max_command_length(&commands), 34);

    let commands = [
        (String::new(), String::new()),
        (String::new(), String::new()),
        (String::new(), String::new()),
    ];
    assert_eq!(get_max_command_length(&commands), 0);
    assert_eq!(get_max_command_length(&[]), 0);
}

#[test]
fn command_runner_test_error_display() {
    let error = CommandRunnerError::TerminalError("command".to_string());
    assert_eq!(error.message(), "Error executing commands:\ncommand");

    let error = CommandRunnerError::ExecutionError("command".to_string());
    assert_eq!(error.message(), "Error executing commands:\ncommand");
}

#[test]
fn layout_offsets_status_column_past_longest_label() {
    let commands = [
        ("build".to_string(), "make".to_string()),
        ("longer label".to_string(), "make check".to_string()),
    ];
    let layout = compute_layout(&commands, 7);
    assert_eq!(layout.base_row, 7);
    assert_eq!(layout.status_column, 13);
}

#[test]
fn layout_of_empty_labels_has_status_column_one() {
    let commands = [
        (String::new(), "a".to_string()),
        (String::new(), "b".to_string()),
    ];
    let layout = compute_layout(&commands, 0);
    assert_eq!(layout.status_column, 1);
    let layout = compute_layout(&[], 3);
    assert_eq!(layout.status_column, 1);
    assert_eq!(layout.base_row, 3);
}

#[test]
fn layout_is_identical_when_computed_twice() {
    let commands = [
        ("one".to_string(), "true".to_string()),
        ("two".to_string(), "false".to_string()),
    ];
    let first = compute_layout(&commands, 5);
    let second = compute_layout(&commands, 5);
    assert_eq!(first.base_row, second.base_row);
    assert_eq!(first.status_column, second.status_column);
}

#[test]
fn writes_go_to_each_commands_own_row() {
    let commands = [
        ("one".to_string(), "true".to_string()),
        ("two".to_string(), "false".to_string()),
    ];
    let layout = compute_layout(&commands, 4);
    let label = label_write(&layout, 1, &commands[1].0);
    assert_eq!(label.col, 0);
    assert_eq!(label.row, 5);
    assert_eq!(label.text, "two");
    let status = status_write(&layout, 0, &ExecutionOutcome::Success);
    assert_eq!(status.col, 4);
    assert_eq!(status.row, 4);
    assert_eq!(status.text, "OK ✔️");
}

#[test]
fn cursor_rests_below_the_last_row() {
    let commands = [
        ("a".to_string(), "true".to_string()),
        ("b".to_string(), "false".to_string()),
        ("c".to_string(), "/bin/missing".to_string()),
    ];
    let layout = compute_layout(&commands, 10);
    assert_eq!(rest_position(&layout, commands.len()), (0, 13));
}

#[test]
fn classify_success_and_failure() {
    let ok = classify(ProcessEvent::Exited(true, Vec::new()));
    assert_eq!(ok, ExecutionOutcome::Success);

    let ko = classify(ProcessEvent::Exited(false, "boom\n".into()));
    assert_eq!(ko, ExecutionOutcome::Failure("boom".to_string()));
    assert_eq!(status_text(&ko), "KO ❌ boom");
}

#[test]
fn classify_launch_failure_is_never_another_outcome() {
    let outcome = classify(ProcessEvent::LaunchFailed);
    assert_eq!(outcome, ExecutionOutcome::LaunchFailure);
    assert_eq!(status_text(&outcome), "Failed to execute command");
}

#[test]
fn launch_plan_splits_on_whitespace() {
    let plan = launch_plan("echo  hello   world");
    let (program, args) = plan.expect("three tokens");
    assert_eq!(program, "echo");
    assert_eq!(args, vec!["hello".to_string(), "world".to_string()]);

    let plan = launch_plan("/bin/true");
    let (program, args) = plan.expect("one token");
    assert_eq!(program, "/bin/true");
    assert!(args.is_empty());

    assert!(launch_plan("").is_none());
    assert!(launch_plan(" \t ").is_none());
}
