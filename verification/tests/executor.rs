use rune::executor::{CommandExecutor, ExecError, SpawnOutcome};

#[test]
fn test_command_executor_new() {
    let executor = CommandExecutor::new("echo");
    assert_eq!(executor.command, "echo");
    assert_eq!(executor.args.len(), 0);
}

#[test]
fn test_command_executor_arg() {
    let executor = CommandExecutor::new("echo").arg("hello");
    assert_eq!(executor.args, vec!["hello"]);
}

#[test]
fn test_command_executor_args_chaining() {
    let executor = CommandExecutor::new("echo")
        .arg("hello")
        .arg("world")
        .arg("test");
    assert_eq!(executor.args, vec!["hello", "world", "test"]);
}

#[test]
fn test_command_executor_args_vec() {
    let executor = CommandExecutor::new("echo").args(vec!["hello", "world", "test"]);
    assert_eq!(executor.args, vec!["hello", "world", "test"]);
}

#[test]
fn test_command_executor_check_available_valid() {
    // Test with a command that should exist on all systems
    let executor = CommandExecutor::new("echo");
    assert!(executor.check_available().is_ok());
}

#[test]
fn test_command_executor_check_available_invalid() {
    let executor = CommandExecutor::new("nonexistent_command_xyz_12345");
    let result = executor.check_available();

    assert!(result.is_err());
    assert!(result.unwrap_err().message().contains("未在 PATH 中找到"));
}

#[test]
fn args_keep_what_was_there() {
    let executor = CommandExecutor::new("echo").arg("first").args(vec!["second", "third"]);
    assert_eq!(executor.command, "echo");
    assert_eq!(executor.args, vec!["first", "second", "third"]);
}

#[test]
fn with_args_appends_owned_arguments() {
    let executor = CommandExecutor::new("sh")
        .arg("-c")
        .with_args(vec!["echo hi".to_string(), "--flag".to_string()]);
    assert_eq!(executor.args, vec!["-c", "echo hi", "--flag"]);
}

#[test]
fn plan_refuses_a_command_that_was_not_found() {
    let executor = CommandExecutor::new("ghost").arg("x");
    match executor.plan(false) {
        Err(ExecError::CommandNotFound(command)) => assert_eq!(command, "ghost"),
        other => panic!("unexpected: {:?}", other),
    }
}

#[test]
fn plan_hands_out_the_command_that_was_found() {
    let executor = CommandExecutor::new("python3").arg("/tmp/s.py").arg("--flag");
    let launch = executor.plan(true).unwrap();
    assert_eq!(launch.command(), "python3");
    assert_eq!(launch.args(), &vec!["/tmp/s.py".to_string(), "--flag".to_string()]);
}

#[test]
fn prepare_fails_before_any_start_for_a_missing_command() {
    let executor = CommandExecutor::new("nonexistent_command_xyz_12345");
    let result = executor.prepare();
    match result {
        Err(ExecError::CommandNotFound(command)) => {
            assert_eq!(command, "nonexistent_command_xyz_12345")
        }
        other => panic!("unexpected: {:?}", other),
    }
}

#[test]
fn prepare_allows_a_command_on_the_path() {
    let launch = CommandExecutor::new("echo").arg("test").prepare().unwrap();
    assert_eq!(launch.command(), "echo");
    assert_eq!(launch.args(), &vec!["test".to_string()]);
}

#[test]
fn conclude_success() {
    let launch = CommandExecutor::new("echo").plan(true).unwrap();
    let outcome = SpawnOutcome::Exited { success: true, code: Some(0) };
    assert!(launch.conclude(outcome).is_ok());
}

#[test]
fn conclude_failure_carries_the_code() {
    let launch = CommandExecutor::new("false").plan(true).unwrap();
    let outcome = SpawnOutcome::Exited { success: false, code: Some(1) };
    match launch.conclude(outcome) {
        Err(ExecError::Failed { command, code }) => {
            assert_eq!(command, "false");
            assert_eq!(code, 1);
        }
        other => panic!("unexpected: {:?}", other),
    }
    let shown = launch.conclude(outcome).unwrap_err().message();
    assert_eq!(shown, "命令 'false' 退出码: 1");
    assert!(shown.contains("退出码"));
}

#[test]
fn conclude_without_a_code_reports_minus_one() {
    let launch = CommandExecutor::new("sleep").plan(true).unwrap();
    let outcome = SpawnOutcome::Exited { success: false, code: None };
    let error = launch.conclude(outcome).unwrap_err();
    match &error {
        ExecError::Failed { code, .. } => assert_eq!(*code, -1),
        other => panic!("unexpected: {:?}", other),
    }
    assert_eq!(error.message(), "命令 'sleep' 退出码: -1");
}

#[test]
fn conclude_negative_and_large_codes() {
    let launch = CommandExecutor::new("x").plan(true).unwrap();
    let low = SpawnOutcome::Exited { success: false, code: Some(i32::MIN) };
    assert_eq!(launch.conclude(low).unwrap_err().message(), "命令 'x' 退出码: -2147483648");
    let high = SpawnOutcome::Exited { success: false, code: Some(i32::MAX) };
    assert_eq!(launch.conclude(high).unwrap_err().message(), "命令 'x' 退出码: 2147483647");
}

#[test]
fn conclude_not_started_is_a_spawn_failure() {
    let launch = CommandExecutor::new("locked").plan(true).unwrap();
    match launch.conclude(SpawnOutcome::NotStarted) {
        Err(ExecError::SpawnFailed(command)) => assert_eq!(command, "locked"),
        other => panic!("unexpected: {:?}", other),
    }
    assert_eq!(
        launch.conclude(SpawnOutcome::NotStarted).unwrap_err().message(),
        "执行命令失败: locked"
    );
}

#[test]
fn command_not_found_message_names_the_command() {
    let error = CommandExecutor::new("ghost").plan(false).unwrap_err();
    assert_eq!(error.message(), "命令 'ghost' 未在 PATH 中找到");
}

#[test]
fn availability_follows_the_answer() {
    let executor = CommandExecutor::new("ghost").arg("x");
    assert!(executor.availability(true).is_ok());
    match executor.availability(false) {
        Err(ExecError::CommandNotFound(command)) => assert_eq!(command, "ghost"),
        other => panic!("unexpected: {:?}", other),
    }
    assert_eq!(
        executor.availability(false).unwrap_err().message(),
        "命令 'ghost' 未在 PATH 中找到"
    );
}
