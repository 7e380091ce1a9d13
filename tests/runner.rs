use wasm_build_runtime::runner::{
    json_lines, restore_plan, run_request_json, rustc_command_args, source_arg_index,
    streaming_output, task_result, teardown_steps, RunProgress, Task, TaskResult, TeardownStep,
    WorkOutcome,
};

fn s(x: &str) -> String {
    x.to_string()
}

fn strings(xs: &[&str]) -> Vec<String> {
    xs.iter().map(|x| x.to_string()).collect()
}

fn apply(env: &mut Vec<(String, String)>, ops: &[(String, Option<String>)]) {
    for (k, v) in ops {
        env.retain(|(key, _)| key != k);
        if let Some(v) = v {
            env.push((k.clone(), v.clone()));
        }
    }
}

fn lookup<'a>(env: &'a [(String, String)], k: &str) -> Option<&'a str> {
    env.iter().rev().find(|(key, _)| key == k).map(|(_, v)| v.as_str())
}

#[test]
fn environment_restored_after_task() {
    let snapshot = vec![(s("PATH"), s("/bin")), (s("FOO"), s("0"))];
    let mut env = snapshot.clone();
    apply(&mut env, &[(s("FOO"), Some(s("1"))), (s("BAR"), Some(s("x"))), (s("PATH"), None)]);
    assert_eq!(lookup(&env, "FOO"), Some("1"));
    let plan = restore_plan(&snapshot, &env);
    apply(&mut env, &plan);
    assert_eq!(lookup(&env, "FOO"), Some("0"));
    assert_eq!(lookup(&env, "PATH"), Some("/bin"));
    assert_eq!(lookup(&env, "BAR"), None);
}

#[test]
fn environment_restored_when_key_was_unset() {
    let snapshot = vec![(s("PATH"), s("/bin"))];
    let mut env = snapshot.clone();
    apply(&mut env, &[(s("FOO"), Some(s("1")))]);
    let plan = restore_plan(&snapshot, &env);
    assert_eq!(plan, vec![(s("FOO"), None), (s("PATH"), Some(s("/bin")))]);
    apply(&mut env, &plan);
    assert_eq!(lookup(&env, "FOO"), None);
}

#[test]
fn aborted_work_keeps_partial_output() {
    let r: TaskResult = task_result(WorkOutcome::Aborted, b"partial output".to_vec(), Vec::new());
    assert!(r.is_error);
    assert_eq!(r.stdout, b"partial output".to_vec());
    assert!(r.stderr.is_empty());
}

#[test]
fn finished_work_reports_its_failure_flag() {
    assert!(!task_result(WorkOutcome::Finished { failed: false }, vec![1], vec![2]).is_error);
    let r = task_result(WorkOutcome::Finished { failed: true }, vec![1], vec![2]);
    assert!(r.is_error);
    assert_eq!(r.stderr, vec![2]);
}

#[test]
fn task_input_bytes() {
    let t = Task::new(Some(vec![1, 2, 3]), strings(&["rustc"]), vec![(s("FOO"), Some(s("1")))]);
    assert_eq!(t.stdin_bytes(), vec![1, 2, 3]);
    assert_eq!(t.args(), &strings(&["rustc"]));
    assert_eq!(t.env().len(), 1);
    let t = Task::new(None, Vec::new(), Vec::new());
    assert!(t.stdin_bytes().is_empty());
}

#[test]
fn source_argument_is_found() {
    let a = strings(&["rustc", "--crate-name", "foo", "--edition=2021", "--crate-type", "lib", "src/lib.rs"]);
    assert_eq!(source_arg_index(&a), Some(6));
    let a = strings(&["rustc", "-C", "opt-level=3", "main.rs"]);
    assert_eq!(source_arg_index(&a), Some(3));
    let a = strings(&["rustc", "-vV"]);
    assert_eq!(source_arg_index(&a), None);
    let a = strings(&["rustc", "--target"]);
    assert_eq!(source_arg_index(&a), None);
    let a = strings(&["rustc", "-L", "deps", "--out-dir", "out", "a.rs"]);
    assert_eq!(source_arg_index(&a), Some(5));
    assert_eq!(source_arg_index(&Vec::new()), None);
}

#[test]
fn only_rustc_runs_in_process() {
    assert_eq!(rustc_command_args("rustc", &strings(&["a.rs"])), Some(strings(&["rustc", "a.rs"])));
    assert_eq!(rustc_command_args("cc", &strings(&["a.c"])), None);
}

#[test]
fn json_lines_are_picked() {
    let out = b"{\"a\":1}\r\nplain\n{\"b\":2}\n\n{\"c\"";
    assert_eq!(
        json_lines(out),
        vec![b"{\"a\":1}".to_vec(), b"{\"b\":2}".to_vec(), b"{\"c\"".to_vec()]
    );
    assert!(json_lines(b"").is_empty());
    assert!(json_lines(b"no json\n").is_empty());
}

#[test]
fn streaming_outcomes() {
    let ok = TaskResult { is_error: false, stdout: vec![1], stderr: vec![2] };
    assert_eq!(streaming_output(&ok, true), Ok((vec![1], vec![2])));
    assert_eq!(streaming_output(&ok, false), Ok((vec![], vec![])));
    let failed = TaskResult { is_error: true, stdout: vec![1], stderr: vec![2] };
    assert_eq!(streaming_output(&failed, true), Err(vec![2]));
}

#[test]
fn run_request_is_json() {
    let r = run_request_json(&strings(&["rustc", "a \"b\".rs"]), "wasm32-wasip1-threads");
    assert_eq!(r, "{\"args\":[\"rustc\",\"a \\\"b\\\".rs\"],\"env\":[],\"target\":\"wasm32-wasip1-threads\"}");
}

#[test]
fn run_request_escapes_control_characters() {
    let r = run_request_json(&strings(&["a\tb\n", "\u{1}\\"]), "x\u{1f}\u{7f}é");
    assert_eq!(r, "{\"args\":[\"a\\tb\\n\",\"\\u0001\\\\\"],\"env\":[],\"target\":\"x\\u001f\u{7f}é\"}");
    assert_eq!(run_request_json(&Vec::new(), ""), "{\"args\":[],\"env\":[],\"target\":\"\"}");
}

#[test]
fn teardown_stops_only_started_captures() {
    let none = RunProgress { stdout_started: false, stderr_started: false, stdin_started: false };
    assert_eq!(teardown_steps(none), vec![TeardownStep::RestoreEnv]);
    let some = RunProgress { stdout_started: true, stderr_started: false, stdin_started: true };
    assert_eq!(teardown_steps(some), vec![TeardownStep::StopStdout, TeardownStep::StopStdin, TeardownStep::RestoreEnv]);
    let all = RunProgress { stdout_started: true, stderr_started: true, stdin_started: true };
    assert_eq!(teardown_steps(all).len(), 4);
}
