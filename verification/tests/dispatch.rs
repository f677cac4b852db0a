use krfiles::errors::CliError;
use krfiles::machine::{start, step, Action, BoundaryEvent, BoundaryOp, Command};

fn bv(s: &str) -> Vec<u8> {
    s.as_bytes().to_vec()
}

fn expect_call(a: Action) -> BoundaryOp {
    match a {
        Action::Call { op } => op,
        Action::Finish { .. } => panic!("expected a boundary call, got a finish"),
    }
}

fn expect_finish(a: Action) -> Result<Vec<u8>, CliError> {
    match a {
        Action::Finish { outcome } => outcome,
        Action::Call { .. } => panic!("expected a finish, got a boundary call"),
    }
}

#[test]
fn missing_token_is_config_error_before_any_handle() {
    let (_m, a) = start(Command::Ls { path: bv("/") }, Some(bv("http://srv")), None);
    // the very first action already finishes: no create (and so no
    // destroy) is ever requested
    match expect_finish(a) {
        Err(CliError::Config { message }) => {
            assert_eq!(
                message,
                bv("No token provided. Use --token, set KRFILES_TOKEN, or run `krfiles login` first.")
            );
        }
        _ => panic!("expected a configuration error"),
    }
}

#[test]
fn missing_server_is_config_error_before_any_handle() {
    let (_m, a) = start(Command::Rm { path: bv("/x") }, None, Some(bv("tok")));
    match expect_finish(a) {
        Err(CliError::Config { message }) => {
            assert_eq!(message, bv("No server specified. Use --server URL or login first."));
        }
        _ => panic!("expected a configuration error"),
    }
}

#[test]
fn ls_of_empty_directory_prints_empty_notice() {
    let (m, a) = start(Command::Ls { path: bv("/") }, Some(bv("http://srv")), Some(bv("tok")));
    match expect_call(a) {
        BoundaryOp::Create { url } => assert_eq!(url, bv("http://srv")),
        _ => panic!("expected create"),
    }
    let (m, a) = step(m, BoundaryEvent::Done);
    match expect_call(a) {
        BoundaryOp::SetToken { token } => assert_eq!(token, bv("tok")),
        _ => panic!("expected set-token"),
    }
    let (m, a) = step(m, BoundaryEvent::Flag { ok: true });
    match expect_call(a) {
        BoundaryOp::ListDirectory { path } => assert_eq!(path, bv("/")),
        _ => panic!("expected list-directory"),
    }
    let payload = br#"{"name":"d","size":0,"extension":"","isDir":true,"path":"/d","modified":"m","items":[]}"#;
    let (m, a) = step(m, BoundaryEvent::Text { value: Some(payload.to_vec()) });
    match expect_call(a) {
        BoundaryOp::Destroy => {}
        _ => panic!("expected destroy"),
    }
    let (_m, a) = step(m, BoundaryEvent::Done);
    // exactly the notice, no per-item output
    assert_eq!(expect_finish(a), Ok(bv("(empty directory)\n")));
}

#[test]
fn search_with_no_matches_prints_notice_and_succeeds() {
    let (m, a) = start(
        Command::Search { query: bv("foo"), path: bv("/") },
        Some(bv("http://srv")),
        Some(bv("tok")),
    );
    expect_call(a);
    let (m, a) = step(m, BoundaryEvent::Done);
    expect_call(a);
    let (m, a) = step(m, BoundaryEvent::Flag { ok: true });
    match expect_call(a) {
        BoundaryOp::Search { query, path } => {
            assert_eq!(query, bv("foo"));
            assert_eq!(path, bv("/"));
        }
        _ => panic!("expected search"),
    }
    let (m, a) = step(m, BoundaryEvent::Text { value: Some(bv("[]")) });
    match expect_call(a) {
        BoundaryOp::Destroy => {}
        _ => panic!("expected destroy"),
    }
    let (_m, a) = step(m, BoundaryEvent::Done);
    // an Ok outcome: the shell exits 0
    assert_eq!(expect_finish(a), Ok(bv("No results found for 'foo'\n")));
}

#[test]
fn login_failure_surfaces_auth_error_and_destroys_handle() {
    let (m, a) = start(
        Command::Login { server: bv("http://srv"), username: bv("u"), password: bv("wrong") },
        None,
        None,
    );
    match expect_call(a) {
        BoundaryOp::Create { url } => assert_eq!(url, bv("http://srv")),
        _ => panic!("expected create"),
    }
    let (m, a) = step(m, BoundaryEvent::Done);
    match expect_call(a) {
        BoundaryOp::Login { username, password } => {
            assert_eq!(username, bv("u"));
            assert_eq!(password, bv("wrong"));
        }
        _ => panic!("expected login"),
    }
    // the native component signals failure with a null result; the machine
    // must read the last error before any other call
    let (m, a) = step(m, BoundaryEvent::Text { value: None });
    match expect_call(a) {
        BoundaryOp::GetLastError => {}
        _ => panic!("expected a last-error read"),
    }
    let (m, a) = step(m, BoundaryEvent::ErrorText { value: Some(bv("Invalid credentials")) });
    match expect_call(a) {
        BoundaryOp::Destroy => {}
        _ => panic!("expected destroy"),
    }
    let (_m, a) = step(m, BoundaryEvent::Done);
    match expect_finish(a) {
        Err(CliError::Auth { message }) => assert_eq!(message, bv("Invalid credentials")),
        _ => panic!("expected an auth error"),
    }
}

#[test]
fn login_success_prints_truncated_token() {
    let (m, _a) = start(
        Command::Login { server: bv("http://srv"), username: bv("u"), password: bv("p") },
        None,
        None,
    );
    let (m, _a) = step(m, BoundaryEvent::Done);
    let token = "abcdefghijklmnopqrstuvwxyz";
    let (m, a) = step(m, BoundaryEvent::Text { value: Some(bv(token)) });
    match expect_call(a) {
        BoundaryOp::Destroy => {}
        _ => panic!("expected destroy"),
    }
    let (_m, a) = step(m, BoundaryEvent::Done);
    assert_eq!(
        expect_finish(a),
        Ok(bv("\u{2713} Logged in to http://srv\n  Token: abcdefghijklmnopqrst...\n"))
    );
}

#[test]
fn download_defaults_local_name_to_last_path_segment() {
    let (m, _a) = start(
        Command::Get { remote_path: bv("/docs/report.pdf"), local_path: None },
        Some(bv("http://srv")),
        Some(bv("tok")),
    );
    let (m, _a) = step(m, BoundaryEvent::Done);
    let (m, a) = step(m, BoundaryEvent::Flag { ok: true });
    match expect_call(a) {
        BoundaryOp::Download { remote, local } => {
            assert_eq!(remote, bv("/docs/report.pdf"));
            assert_eq!(local, bv("report.pdf"));
        }
        _ => panic!("expected download"),
    }
    let (m, a) = step(m, BoundaryEvent::Flag { ok: true });
    match expect_call(a) {
        BoundaryOp::Destroy => {}
        _ => panic!("expected destroy"),
    }
    let (_m, a) = step(m, BoundaryEvent::Done);
    assert_eq!(
        expect_finish(a),
        Ok(bv("\u{2713} Downloaded /docs/report.pdf \u{2192} report.pdf\n"))
    );
}

#[test]
fn failed_delete_surfaces_transport_error_from_last_error_slot() {
    let (m, _a) = start(Command::Rm { path: bv("/x") }, Some(bv("s")), Some(bv("t")));
    let (m, _a) = step(m, BoundaryEvent::Done);
    let (m, a) = step(m, BoundaryEvent::Flag { ok: true });
    match expect_call(a) {
        BoundaryOp::Delete { path } => assert_eq!(path, bv("/x")),
        _ => panic!("expected delete"),
    }
    let (m, a) = step(m, BoundaryEvent::Flag { ok: false });
    match expect_call(a) {
        BoundaryOp::GetLastError => {}
        _ => panic!("expected a last-error read"),
    }
    let (m, a) = step(m, BoundaryEvent::ErrorText { value: Some(bv("permission denied")) });
    match expect_call(a) {
        BoundaryOp::Destroy => {}
        _ => panic!("expected destroy"),
    }
    let (_m, a) = step(m, BoundaryEvent::Done);
    match expect_finish(a) {
        Err(CliError::Transport { message }) => assert_eq!(message, bv("permission denied")),
        _ => panic!("expected a transport error"),
    }
}

#[test]
fn empty_last_error_slot_reads_as_unknown_error() {
    let (m, _a) = start(Command::Mkdir { path: bv("/x") }, Some(bv("s")), Some(bv("t")));
    let (m, _a) = step(m, BoundaryEvent::Done);
    let (m, _a) = step(m, BoundaryEvent::Flag { ok: true });
    let (m, _a) = step(m, BoundaryEvent::Flag { ok: false });
    let (m, _a) = step(m, BoundaryEvent::ErrorText { value: None });
    let (_m, a) = step(m, BoundaryEvent::Done);
    match expect_finish(a) {
        Err(CliError::Transport { message }) => assert_eq!(message, bv("Unknown error")),
        _ => panic!("expected a transport error"),
    }
}

#[test]
fn worker_failure_is_task_error_and_still_destroys() {
    let (m, _a) = start(Command::Info { path: bv("/f") }, Some(bv("s")), Some(bv("t")));
    let (m, _a) = step(m, BoundaryEvent::Done);
    let (m, _a) = step(m, BoundaryEvent::Flag { ok: true });
    let (m, a) = step(m, BoundaryEvent::TaskFailed { message: bv("worker aborted") });
    match expect_call(a) {
        BoundaryOp::Destroy => {}
        _ => panic!("expected destroy even after a worker failure"),
    }
    let (_m, a) = step(m, BoundaryEvent::Done);
    match expect_finish(a) {
        Err(CliError::Task { message }) => assert_eq!(message, bv("Task failed: worker aborted")),
        _ => panic!("expected a task error"),
    }
}

#[test]
fn malformed_payload_is_decode_error_and_still_destroys() {
    let (m, _a) = start(Command::Ls { path: bv("/") }, Some(bv("s")), Some(bv("t")));
    let (m, _a) = step(m, BoundaryEvent::Done);
    let (m, _a) = step(m, BoundaryEvent::Flag { ok: true });
    let (m, a) = step(m, BoundaryEvent::Text { value: Some(bv("{not json")) });
    match expect_call(a) {
        BoundaryOp::Destroy => {}
        _ => panic!("expected destroy"),
    }
    let (_m, a) = step(m, BoundaryEvent::Done);
    match expect_finish(a) {
        Err(CliError::Decode { message }) => assert_eq!(message, bv("Failed to parse response")),
        _ => panic!("expected a decode error"),
    }
}

#[test]
fn ls_of_file_prints_not_a_directory() {
    let (m, _a) = start(Command::Ls { path: bv("/f") }, Some(bv("s")), Some(bv("t")));
    let (m, _a) = step(m, BoundaryEvent::Done);
    let (m, _a) = step(m, BoundaryEvent::Flag { ok: true });
    let payload = br#"{"name":"f","size":1,"extension":"","path":"/f","modified":"m"}"#;
    let (m, _a) = step(m, BoundaryEvent::Text { value: Some(payload.to_vec()) });
    let (_m, a) = step(m, BoundaryEvent::Done);
    assert_eq!(expect_finish(a), Ok(bv("(not a directory)\n")));
}

#[test]
fn move_success_message_names_both_paths() {
    let (m, _a) = start(
        Command::Mv { source: bv("/a"), destination: bv("/b"), force: true },
        Some(bv("s")),
        Some(bv("t")),
    );
    let (m, _a) = step(m, BoundaryEvent::Done);
    let (m, a) = step(m, BoundaryEvent::Flag { ok: true });
    match expect_call(a) {
        BoundaryOp::Rename { source, destination, overwrite } => {
            assert_eq!(source, bv("/a"));
            assert_eq!(destination, bv("/b"));
            assert!(overwrite);
        }
        _ => panic!("expected rename"),
    }
    let (m, _a) = step(m, BoundaryEvent::Flag { ok: true });
    let (_m, a) = step(m, BoundaryEvent::Done);
    assert_eq!(expect_finish(a), Ok(bv("\u{2713} Moved /a \u{2192} /b\n")));
}

#[test]
fn upload_success_message_names_both_paths() {
    let (m, _a) = start(
        Command::Put { local_path: bv("l.txt"), remote_path: bv("/r.txt"), force: false },
        Some(bv("s")),
        Some(bv("t")),
    );
    let (m, _a) = step(m, BoundaryEvent::Done);
    let (m, a) = step(m, BoundaryEvent::Flag { ok: true });
    match expect_call(a) {
        BoundaryOp::Upload { remote, local, overwrite } => {
            assert_eq!(remote, bv("/r.txt"));
            assert_eq!(local, bv("l.txt"));
            assert!(!overwrite);
        }
        _ => panic!("expected upload"),
    }
    let (m, _a) = step(m, BoundaryEvent::Flag { ok: true });
    let (_m, a) = step(m, BoundaryEvent::Done);
    assert_eq!(expect_finish(a), Ok(bv("\u{2713} Uploaded l.txt \u{2192} /r.txt\n")));
}

#[test]
fn mkdir_success_message_names_the_path() {
    let (m, _a) = start(Command::Mkdir { path: bv("/new") }, Some(bv("s")), Some(bv("t")));
    let (m, _a) = step(m, BoundaryEvent::Done);
    let (m, _a) = step(m, BoundaryEvent::Flag { ok: true });
    let (m, _a) = step(m, BoundaryEvent::Flag { ok: true });
    let (_m, a) = step(m, BoundaryEvent::Done);
    assert_eq!(expect_finish(a), Ok(bv("\u{2713} Created directory /new\n")));
}

#[test]
fn search_with_matches_lists_them_via_the_machine() {
    let (m, _a) = start(
        Command::Search { query: bv("a"), path: bv("/") },
        Some(bv("s")),
        Some(bv("t")),
    );
    let (m, _a) = step(m, BoundaryEvent::Done);
    let (m, _a) = step(m, BoundaryEvent::Flag { ok: true });
    let payload = br#"[{"path":"/a","dir":true},{"path":"/b/a.txt"}]"#;
    let (m, _a) = step(m, BoundaryEvent::Text { value: Some(payload.to_vec()) });
    let (_m, a) = step(m, BoundaryEvent::Done);
    assert_eq!(
        expect_finish(a),
        Ok(bv("  [dir ] /a\n  [file] /b/a.txt\n\n2 result(s)\n"))
    );
}
