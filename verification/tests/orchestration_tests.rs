use playground::health::greeting;
use playground::health::health_status;
use playground::outcome::classify;
use playground::outcome::conclude;
use playground::outcome::Completion;
use playground::outcome::ExecutionError;
use playground::profile::rust_profile;
use playground::profile::typescript_profile;
use playground::respond::respond;

const TIMEOUT_MESSAGE: &[u8] =
    b"Execution timed out after 30 seconds. Your code took too long to run.";

#[test]
fn rust_profile_configuration() {
    let p = rust_profile(b"/app/template-rs".to_vec());
    assert_eq!(p.workspace_root, b"/app/template-rs".to_vec());
    assert_eq!(p.source_rel, b"src/main.rs".to_vec());
    assert_eq!(p.command, b"cargo".to_vec());
    assert_eq!(p.args, vec![b"run".to_vec(), b"--verbose".to_vec()]);
    assert_eq!(
        p.compile_markers,
        vec![
            b"error[E".to_vec(),
            b"could not compile".to_vec(),
            b"error: aborting due to".to_vec(),
        ]
    );
}

#[test]
fn typescript_profile_configuration() {
    let p = typescript_profile(b"/app/template-ts".to_vec());
    assert_eq!(p.workspace_root, b"/app/template-ts".to_vec());
    assert_eq!(p.source_rel, b"src/index.ts".to_vec());
    assert_eq!(p.command, b"pnpm".to_vec());
    assert_eq!(p.args, vec![b"run".to_vec(), b"start".to_vec()]);
    assert_eq!(
        p.compile_markers,
        vec![
            b"TypeScript error".to_vec(),
            b"TypeError".to_vec(),
            b"SyntaxError".to_vec(),
        ]
    );
}

#[test]
fn successful_run_reports_its_stdout() {
    let p = rust_profile(b"/app/template-rs".to_vec());
    let r = conclude(
        &p,
        Completion::Finished {
            exit_ok: true,
            stdout: b"Hello from the snippet\n".to_vec(),
            stderr: Vec::new(),
        },
    );
    let o = r.unwrap_or_else(|_| panic!("expected success"));
    assert!(o.success);
    assert_eq!(o.stdout, b"Hello from the snippet\n".to_vec());
    let w = respond(Ok(o));
    assert_eq!(w.status, 200);
    assert!(w.success);
    assert_eq!(w.output, b"Hello from the snippet\n".to_vec());
    assert!(w.error.is_none());
}

#[test]
fn successful_run_may_have_empty_stdout() {
    let p = typescript_profile(b"/app/template-ts".to_vec());
    let r = conclude(
        &p,
        Completion::Finished { exit_ok: true, stdout: Vec::new(), stderr: Vec::new() },
    );
    let w = respond(r);
    assert_eq!(w.status, 200);
    assert!(w.success);
    assert_eq!(w.output, Vec::<u8>::new());
    assert!(w.error.is_none());
}

#[test]
fn rust_syntax_error_is_a_compile_failure() {
    let p = rust_profile(b"/app/template-rs".to_vec());
    let stderr = b"error[E0308]: mismatched types\n --> src/main.rs:2:5".to_vec();
    match classify(&p, stderr.clone()) {
        ExecutionError::CompileFailure(m) => assert_eq!(m, stderr),
        _ => panic!("expected a compile failure"),
    }
}

#[test]
fn rust_could_not_compile_marker() {
    let p = rust_profile(b"/app/template-rs".to_vec());
    let stderr = b"error: could not compile `playground` due to previous error".to_vec();
    match classify(&p, stderr.clone()) {
        ExecutionError::CompileFailure(m) => assert_eq!(m, stderr),
        _ => panic!("expected a compile failure"),
    }
}

#[test]
fn rust_aborting_marker() {
    let p = rust_profile(b"/app/template-rs".to_vec());
    let stderr = b"error: aborting due to 2 previous errors".to_vec();
    match classify(&p, stderr.clone()) {
        ExecutionError::CompileFailure(m) => assert_eq!(m, stderr),
        _ => panic!("expected a compile failure"),
    }
}

#[test]
fn typescript_checker_marker() {
    let p = typescript_profile(b"/app/template-ts".to_vec());
    let stderr = b"src/index.ts(3,5): TypeScript error TS2322: type mismatch".to_vec();
    match classify(&p, stderr.clone()) {
        ExecutionError::CompileFailure(m) => assert_eq!(m, stderr),
        _ => panic!("expected a compile failure"),
    }
}

#[test]
fn typescript_syntax_error_is_a_compile_failure() {
    let p = typescript_profile(b"/app/template-ts".to_vec());
    let stderr = b"SyntaxError: Unexpected token ')'".to_vec();
    match classify(&p, stderr.clone()) {
        ExecutionError::CompileFailure(m) => assert_eq!(m, stderr),
        _ => panic!("expected a compile failure"),
    }
}

#[test]
fn compile_failure_answers_400() {
    let p = rust_profile(b"/app/template-rs".to_vec());
    let stderr = b"error[E0425]: cannot find value `x` in this scope".to_vec();
    let r = conclude(
        &p,
        Completion::Finished { exit_ok: false, stdout: Vec::new(), stderr: stderr.clone() },
    );
    let w = respond(r);
    assert_eq!(w.status, 400);
    assert!(!w.success);
    assert_eq!(w.output, Vec::<u8>::new());
    assert_eq!(w.error, Some(stderr));
}

#[test]
fn nonzero_exit_without_marker_is_a_runtime_failure() {
    let p = rust_profile(b"/app/template-rs".to_vec());
    let stderr = b"thread 'main' panicked at 'boom', src/main.rs:3:5".to_vec();
    let r = conclude(
        &p,
        Completion::Finished { exit_ok: false, stdout: Vec::new(), stderr: stderr.clone() },
    );
    match &r {
        Err(ExecutionError::RuntimeFailure(m)) => assert_eq!(m, &stderr),
        _ => panic!("expected a runtime failure"),
    }
    let w = respond(r);
    assert_eq!(w.status, 400);
    assert!(!w.success);
    assert_eq!(w.error, Some(stderr));
}

#[test]
fn typescript_plain_error_is_a_runtime_failure() {
    let p = typescript_profile(b"/app/template-ts".to_vec());
    let stderr = b"Error: connection refused".to_vec();
    match classify(&p, stderr.clone()) {
        ExecutionError::RuntimeFailure(m) => assert_eq!(m, stderr),
        _ => panic!("expected a runtime failure"),
    }
}

#[test]
fn timeout_answers_400_with_the_fixed_message() {
    let p = rust_profile(b"/app/template-rs".to_vec());
    let r = conclude(&p, Completion::TimedOut);
    match &r {
        Err(ExecutionError::RuntimeFailure(m)) => assert_eq!(m, &TIMEOUT_MESSAGE.to_vec()),
        _ => panic!("expected a runtime failure"),
    }
    let w = respond(r);
    assert_eq!(w.status, 400);
    assert!(!w.success);
    assert_eq!(w.error, Some(TIMEOUT_MESSAGE.to_vec()));
}

#[test]
fn workspace_failure_answers_500() {
    let p = rust_profile(b"/does/not/exist".to_vec());
    let detail = b"No such file or directory (os error 2)".to_vec();
    let r = conclude(&p, Completion::IoError(detail.clone()));
    let w = respond(r);
    assert_eq!(w.status, 500);
    assert!(!w.success);
    assert_eq!(w.output, Vec::<u8>::new());
    assert_eq!(w.error, Some(detail));
}

#[test]
fn crashed_driver_is_a_runtime_failure() {
    let p = typescript_profile(b"/app/template-ts".to_vec());
    let detail = b"Task panic: task 12 panicked".to_vec();
    let r = conclude(&p, Completion::Crashed(detail.clone()));
    let w = respond(r);
    assert_eq!(w.status, 400);
    assert!(!w.success);
    assert_eq!(w.error, Some(detail));
}

#[test]
fn interleaved_requests_keep_their_own_outputs() {
    let p = rust_profile(b"/app/template-rs".to_vec());
    let first = conclude(
        &p,
        Completion::Finished {
            exit_ok: true,
            stdout: b"first snippet output".to_vec(),
            stderr: Vec::new(),
        },
    );
    let second = conclude(
        &p,
        Completion::Finished {
            exit_ok: true,
            stdout: b"second snippet output".to_vec(),
            stderr: Vec::new(),
        },
    );
    let w2 = respond(second);
    let w1 = respond(first);
    assert_eq!(w1.output, b"first snippet output".to_vec());
    assert_eq!(w2.output, b"second snippet output".to_vec());
}

#[test]
fn health_needs_both_toolchains() {
    assert_eq!(health_status(true, true), 200);
    assert_eq!(health_status(true, false), 503);
    assert_eq!(health_status(false, true), 503);
    assert_eq!(health_status(false, false), 503);
}

#[test]
fn greeting_text() {
    assert_eq!(
        greeting(),
        "Hello, World! Welcome to the Solana Playground Service (Rust + TypeScript)"
    );
}
