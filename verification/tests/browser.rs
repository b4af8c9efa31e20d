use unified_share::browser::{
    availability_problem, base_url, file_headers, first_bad_path, first_path_problem,
    html_escape, html_headers, index_html, launch_step, new_token, new_transfer_id,
    ready_file_name, ready_report, failure_report, route_request, safe_header_filename,
    state_file_name, unit_name, validate_server_state, AvailabilityProblem, BrowserError,
    LaunchCleanup, LaunchStep, LauncherExit, PathKind, PathProblem, ReadyState, RequestMethod,
    Route,
};
use unified_share::random::random_hex;

#[test]
fn token_is_256_bits_and_hex_encoded() {
    let token = random_hex(32).unwrap();
    assert_eq!(token.len(), 64);
    assert!(token.bytes().all(|byte| byte.is_ascii_hexdigit()));
}

#[test]
fn no_random_bytes_give_the_empty_text() {
    assert_eq!(random_hex(0).unwrap(), "");
}

#[test]
fn html_escapes_untrusted_file_names() {
    assert_eq!(html_escape("<x & \"y\">"), "&lt;x &amp; &quot;y&quot;&gt;");
}

#[test]
fn header_file_names_cannot_inject_headers() {
    assert_eq!(
        safe_header_filename("x\r\nInjected: yes"),
        "x__Injected: yes"
    );
}

#[test]
fn index_contains_only_numeric_allowlist_routes() {
    let html = index_html(
        &vec!["a.txt".to_owned(), "b.txt".to_owned()],
        "http://host/t/token/",
    );
    assert!(html.contains("http://host/t/token/file/0"));
    assert!(html.contains("http://host/t/token/file/1"));
    assert!(!html.contains("/tmp/"));
}

#[test]
fn transfer_ids_cannot_escape_the_unit_namespace() {
    assert!(unit_name("0123456789abcdef0123456789abcdef").is_ok());
    assert!(unit_name("../../another.service").is_err());
    assert!(unit_name("ABCDEF0123456789abcdef0123456789").is_err());
}

#[test]
fn unit_name_prefixes_the_namespace() {
    assert_eq!(
        unit_name("0123456789abcdef0123456789abcdef").unwrap(),
        "unified-share-browser-0123456789abcdef0123456789abcdef"
    );
    assert!(matches!(
        unit_name("0123456789abcdef0123456789abcde"),
        Err(BrowserError::InvalidTransferId)
    ));
    assert!(unit_name("0123456789abcdef0123456789abcdeé").is_err());
}

#[test]
fn escaping_covers_apostrophes_and_keeps_other_text() {
    assert_eq!(html_escape("it's"), "it&#39;s");
    assert_eq!(html_escape("résumé.pdf"), "résumé.pdf");
    assert_eq!(html_escape(""), "");
    let escaped = html_escape("<script>alert('x')</script>");
    assert!(!escaped.contains('<') && !escaped.contains('>') && !escaped.contains('\''));
}

#[test]
fn header_names_replace_quotes_backslashes_and_controls() {
    assert_eq!(safe_header_filename("a\"b\\c\td\u{7f}e\u{85}f"), "a_b_c_d_e_f");
    assert_eq!(safe_header_filename("plain name.txt"), "plain name.txt");
}

#[test]
fn index_page_has_exact_shape() {
    let html = index_html(&vec!["<a>.txt".to_owned()], "http://h/t/k/");
    assert!(html.starts_with("<!doctype html><html><head><meta charset=\"utf-8\">"));
    assert!(html.ends_with(
        "<ul><li><a href=\"http://h/t/k/file/0\" download>&lt;a&gt;.txt</a></li></ul></body></html>"
    ));
    assert!(html.contains("body{font:16px system-ui;"));
    let many: Vec<String> = (0..12).map(|i| format!("f{i}")).collect();
    let html = index_html(&many, "/b/");
    assert!(html.contains("<li><a href=\"/b/file/11\" download>f11</a></li>"));
}

#[test]
fn routes_only_get_and_head_to_numbered_files() {
    let token = "ab";
    assert_eq!(route_request(RequestMethod::Other, "/t/ab/", token, 2), Route::MethodNotAllowed);
    assert_eq!(route_request(RequestMethod::Get, "/t/ab/", token, 2), Route::Index);
    assert_eq!(route_request(RequestMethod::Head, "/t/ab/file/1", token, 2), Route::File(1));
    assert_eq!(route_request(RequestMethod::Get, "/t/ab/file/2", token, 2), Route::NotFound);
    assert_eq!(route_request(RequestMethod::Get, "/t/ab/file/+1", token, 2), Route::File(1));
    assert_eq!(route_request(RequestMethod::Get, "/t/ab/file/", token, 2), Route::NotFound);
    assert_eq!(route_request(RequestMethod::Get, "/t/ab/file/-1", token, 2), Route::NotFound);
    assert_eq!(route_request(RequestMethod::Get, "/t/ab/file/../x", token, 2), Route::NotFound);
    assert_eq!(
        route_request(RequestMethod::Get, "/t/ab/file/99999999999999999999999", token, 2),
        Route::NotFound
    );
    assert_eq!(route_request(RequestMethod::Get, "/t/zz/", token, 2), Route::NotFound);
    assert_eq!(route_request(RequestMethod::Get, "/t/ab/file/0001", token, 2), Route::File(1));
    assert_eq!(Route::MethodNotAllowed.status_code(), 405);
    assert_eq!(Route::NotFound.status_code(), 404);
    assert_eq!(Route::Index.status_code(), 200);
}

#[test]
fn server_state_checks_timeout_then_token() {
    let token = "0123456789abcdefABCDEF0123456789abcdef0123456789abcdef0123456789";
    assert!(validate_server_state(30, token).is_ok());
    assert!(validate_server_state(86_400, token).is_ok());
    assert!(matches!(validate_server_state(29, token), Err(BrowserError::InvalidTimeout)));
    assert!(matches!(validate_server_state(86_401, "x"), Err(BrowserError::InvalidTimeout)));
    assert!(matches!(validate_server_state(60, "x"), Err(BrowserError::InvalidToken)));
    let bad = "g123456789abcdef0123456789abcdef0123456789abcdef0123456789abcdef";
    assert!(matches!(validate_server_state(60, bad), Err(BrowserError::InvalidToken)));
}

#[test]
fn fresh_ids_and_tokens_pass_their_checks() {
    let id = new_transfer_id().unwrap();
    assert!(unit_name(&id).is_ok());
    let token = new_token().unwrap();
    assert!(validate_server_state(60, &token).is_ok());
    assert_ne!(token, "0".repeat(64));
    assert_ne!(new_token().unwrap(), token);
}

#[test]
fn urls_and_file_names() {
    assert_eq!(base_url("192.168.1.2", 8080, "abc"), "http://192.168.1.2:8080/t/abc/");
    assert_eq!(base_url("10.0.0.1", 0, "t"), "http://10.0.0.1:0/t/t/");
    assert_eq!(state_file_name("id"), "id.state.json");
    assert_eq!(ready_file_name("id"), "id.ready.json");
}

#[test]
fn ready_reports_saturate_expiry() {
    let report = ready_report("u".to_owned(), 100, 30);
    assert!(report.ok);
    assert_eq!(report.expires_at_unix, Some(130));
    assert_eq!(report.url.as_deref(), Some("u"));
    let report = ready_report("u".to_owned(), u64::MAX - 1, 30);
    assert_eq!(report.expires_at_unix, Some(u64::MAX));
    let report = failure_report("boom".to_owned());
    assert!(!report.ok);
    assert_eq!(report.error.as_deref(), Some("boom"));
}

fn ready(ok: bool, url: Option<&str>, expiry: Option<u64>, error: Option<&str>) -> ReadyState {
    ReadyState {
        ok,
        url: url.map(str::to_owned),
        expires_at_unix: expiry,
        error: error.map(str::to_owned),
    }
}

#[test]
fn launch_steps_follow_the_server_report() {
    match launch_step(false, Some(ready(true, Some("u"), Some(5), None)), None, true, "id".to_owned()) {
        LaunchStep::Launched(launch) => {
            assert_eq!(launch.url, "u");
            assert_eq!(launch.expires_at_unix, 5);
            assert_eq!(launch.transfer_id, "id");
        }
        other => panic!("unexpected {other:?}"),
    }
    match launch_step(false, Some(ready(false, None, None, None)), None, false, "id".to_owned()) {
        LaunchStep::Failed(error, LaunchCleanup::Nothing) => {
            assert_eq!(error.message(), "Browser / QR server failed: unknown startup error");
        }
        other => panic!("unexpected {other:?}"),
    }
    match launch_step(false, Some(ready(true, None, Some(5), None)), None, false, "id".to_owned()) {
        LaunchStep::Failed(error, LaunchCleanup::Nothing) => {
            assert_eq!(error.message(), "Browser / QR server omitted its URL");
        }
        other => panic!("unexpected {other:?}"),
    }
    match launch_step(false, Some(ready(true, Some("u"), None, None)), None, false, "id".to_owned()) {
        LaunchStep::Failed(error, LaunchCleanup::Nothing) => {
            assert_eq!(error.message(), "Browser / QR server omitted its expiry");
        }
        other => panic!("unexpected {other:?}"),
    }
}

#[test]
fn launch_steps_without_report() {
    let failed = LauncherExit { success: false, status: "exit status: 1".to_owned() };
    match launch_step(false, None, Some(failed), false, "id".to_owned()) {
        LaunchStep::Failed(error, LaunchCleanup::StateFile) => {
            assert_eq!(error.message(), "Browser / QR launcher exited during startup with exit status: 1");
        }
        other => panic!("unexpected {other:?}"),
    }
    let done = LauncherExit { success: true, status: "exit status: 0".to_owned() };
    assert!(matches!(
        launch_step(false, None, Some(done), false, "id".to_owned()),
        LaunchStep::Wait { launcher_finished: true }
    ));
    assert!(matches!(
        launch_step(false, None, None, false, "id".to_owned()),
        LaunchStep::Wait { launcher_finished: false }
    ));
    match launch_step(true, None, None, true, "id".to_owned()) {
        LaunchStep::Failed(error, LaunchCleanup::Everything) => {
            assert_eq!(error.message(), "Browser / QR server did not become ready within five seconds");
        }
        other => panic!("unexpected {other:?}"),
    }
}

#[test]
fn path_checks_report_the_first_problem() {
    assert_eq!(first_path_problem(&vec![]), Some(PathProblem::NoPaths));
    assert_eq!(first_bad_path(&vec![]), None);
    assert_eq!(
        first_path_problem(&vec![PathKind::RegularFile, PathKind::NotRegularFile, PathKind::Unreadable]),
        Some(PathProblem::NotRegularFile(1))
    );
    assert_eq!(
        first_bad_path(&vec![PathKind::Unreadable, PathKind::NotRegularFile]),
        Some(PathProblem::Unreadable(0))
    );
    assert_eq!(first_path_problem(&vec![PathKind::RegularFile; 3]), None);
    assert_eq!(BrowserError::NoFiles.message(), "Browser / QR sharing requires at least one file");
}

#[test]
fn availability_checks_in_order() {
    assert_eq!(availability_problem(None, true, true), Some(AvailabilityProblem::RuntimeDirUnset));
    assert_eq!(availability_problem(Some(false), true, true), Some(AvailabilityProblem::RuntimeDirMissing));
    assert_eq!(availability_problem(Some(true), true, false), Some(AvailabilityProblem::ServiceToolsMissing));
    assert_eq!(availability_problem(Some(true), true, true), None);
    assert_eq!(AvailabilityProblem::RuntimeDirUnset.message(), "XDG_RUNTIME_DIR is not set");
}

#[test]
fn download_headers_are_safe_and_ascii() {
    let headers = file_headers("report \"final\".pdf");
    assert_eq!(headers.len(), 3);
    assert_eq!(headers[0].field.as_str().as_str(), "Content-Type");
    assert_eq!(headers[0].value.as_str(), "application/octet-stream");
    assert_eq!(headers[1].field.as_str().as_str(), "Content-Disposition");
    assert_eq!(headers[1].value.as_str(), "attachment; filename=\"report _final_.pdf\"");
    assert_eq!(headers[2].value.as_str(), "no-store");
    assert!(!safe_header_filename("résumé.pdf").is_ascii());
    let page = html_headers();
    assert_eq!(page.len(), 6);
    assert_eq!(page[5].field.as_str().as_str(), "Content-Security-Policy");
    assert_eq!(page[5].value.as_str(), "default-src 'none'; style-src 'unsafe-inline'");
    assert_eq!(page[3].value.as_str(), "DENY");
}
