use rtk_js::command::{
    command_line, exit_status, is_install_subcommand, output_mode, raw_output, user_set_reporter,
    OutputMode,
};
use rtk_js::document::{
    collect_test_results, count_specs, PlaywrightAttachment, PlaywrightAttempt, PlaywrightError,
    PlaywrightExecution, PlaywrightJsonOutput, PlaywrightSpec, PlaywrightStats, PlaywrightStream,
    PlaywrightSuite,
};
use rtk_js::excerpt::{trim_snippet, trim_stack, MAX_STACK_FRAMES};
use rtk_js::install::{classify_line, filter_install, report_classified, LineKind};
use rtk_js::playwright::{report_other, report_tests, PlaywrightParser, Prepared, TestReport};
use rtk_js::results::{ParseResult, TestResult};
use rtk_js::rich::{emit_failure_block, format_rich_output, walk_failures};
use rtk_js::summary::{
    duration_from_groups, extract_counts, extract_failures_regex, extract_playwright_regex,
    failures_from_matches, find_duration, result_from_counts, tally, Counts,
};
use serde_json::Value;

fn string(v: &Value, key: &str) -> Option<String> {
    v.get(key).and_then(|s| s.as_str()).map(|s| s.to_string())
}

fn list<T>(v: &Value, key: &str, item: fn(&Value) -> Option<T>) -> Option<Vec<T>> {
    match v.get(key) {
        Some(Value::Array(items)) => items.iter().map(item).collect(),
        Some(_) => None,
        None => Some(Vec::new()),
    }
}

fn stream(v: &Value) -> Option<PlaywrightStream> {
    Some(PlaywrightStream { text: string(v, "text") })
}

fn attachment(v: &Value) -> Option<PlaywrightAttachment> {
    Some(PlaywrightAttachment {
        name: string(v, "name").unwrap_or_default(),
        path: string(v, "path"),
    })
}

fn error(v: &Value) -> Option<PlaywrightError> {
    Some(PlaywrightError {
        message: string(v, "message").unwrap_or_default(),
        stack: string(v, "stack"),
        snippet: string(v, "snippet"),
    })
}

fn attempt(v: &Value) -> Option<PlaywrightAttempt> {
    Some(PlaywrightAttempt {
        status: string(v, "status")?,
        errors: list(v, "errors", error)?,
        attachments: list(v, "attachments", attachment)?,
        stdout: list(v, "stdout", stream)?,
        stderr: list(v, "stderr", stream)?,
    })
}

fn execution(v: &Value) -> Option<PlaywrightExecution> {
    Some(PlaywrightExecution { status: string(v, "status")?, results: list(v, "results", attempt)? })
}

fn spec(v: &Value) -> Option<PlaywrightSpec> {
    Some(PlaywrightSpec {
        title: string(v, "title")?,
        ok: v.get("ok")?.as_bool()?,
        tests: list(v, "tests", execution)?,
    })
}

fn suite(v: &Value) -> Option<PlaywrightSuite> {
    Some(PlaywrightSuite {
        title: string(v, "title")?,
        file: string(v, "file"),
        specs: list(v, "specs", spec)?,
        suites: list(v, "suites", suite)?,
    })
}

fn document(v: &Value) -> Option<PlaywrightJsonOutput> {
    let stats = v.get("stats")?;
    Some(PlaywrightJsonOutput {
        stats: PlaywrightStats {
            expected: stats.get("expected")?.as_u64()? as usize,
            unexpected: stats.get("unexpected")?.as_u64()? as usize,
            skipped: stats.get("skipped")?.as_u64()? as usize,
            duration: stats.get("duration").and_then(|d| d.as_f64()).unwrap_or(0.0) as u64,
        },
        suites: list(v, "suites", suite)?,
    })
}

fn decode(input: &str) -> Result<PlaywrightJsonOutput, String> {
    match serde_json::from_str::<Value>(input) {
        Ok(v) => document(&v).ok_or_else(|| String::from("not a report")),
        Err(e) => Err(e.to_string()),
    }
}

fn prepare(input: &str) -> Prepared {
    Prepared {
        decoded: decode(input),
        duration_ms: find_duration(input).and_then(|d| {
            let value: f64 = d.value.parse().ok()?;
            Some((value * f64::from(d.millis_per_unit)) as u64)
        }),
        passthrough: input.to_string(),
    }
}

fn parse(input: &str) -> ParseResult<TestResult> {
    PlaywrightParser::parse(input, prepare(input))
}

fn count_tokens(s: &str) -> usize {
    s.split_whitespace().count()
}

const ARTIFACTS: &str = r#"{
    "config": { "version": "1.43.0", "workers": 4, "rootDir": "/app/tests" },
    "suites": [
        {
            "title": "auth/login.spec.ts",
            "file": "auth/login.spec.ts",
            "column": 0,
            "line": 0,
            "specs": [
                {
                    "title": "logs in with valid credentials",
                    "ok": true,
                    "tags": [],
                    "tests": [
                        {
                            "timeout": 30000,
                            "annotations": [],
                            "expectedStatus": "passed",
                            "projectId": "chromium",
                            "projectName": "chromium",
                            "status": "expected",
                            "results": [
                                {
                                    "workerIndex": 0,
                                    "status": "passed",
                                    "duration": 2100,
                                    "errors": [],
                                    "stdout": [ { "text": "this should NOT appear in the report\n" } ],
                                    "stderr": [],
                                    "retry": 0,
                                    "attachments": []
                                }
                            ]
                        }
                    ],
                    "id": "a30a6eba6312f6b87ea5-0",
                    "file": "auth/login.spec.ts",
                    "line": 10,
                    "column": 5
                }
            ],
            "suites": [
                {
                    "title": "invalid credentials",
                    "file": "auth/login.spec.ts",
                    "column": 6,
                    "line": 30,
                    "specs": [
                        {
                            "title": "shows an error for a wrong password",
                            "ok": false,
                            "tags": [],
                            "tests": [
                                {
                                    "timeout": 30000,
                                    "annotations": [],
                                    "expectedStatus": "passed",
                                    "projectId": "chromium",
                                    "projectName": "chromium",
                                    "status": "unexpected",
                                    "results": [
                                        {
                                            "workerIndex": 1,
                                            "status": "failed",
                                            "duration": 5200,
                                            "errors": [
                                                {
                                                    "message": "Error: expect(locator).toHaveText(expected)\n\nExpected: Invalid password",
                                                    "stack": "Error: expect(locator).toHaveText(expected)\n    at /app/tests/auth/login.spec.ts:44:27\n    at run (/app/node_modules/playwright/lib/runner.js:1:1)",
                                                    "snippet": "  42 |   await page.click('#go');\n  43 |   const alert = page.locator('.alert');\n> 44 |   await expect(alert).toHaveText('Invalid password');\n     |                       ^\n  45 | });\n  46 | "
                                                }
                                            ],
                                            "stdout": [ { "text": "\u001b[31mUncaught TypeError\u001b[39m: x is undefined\n" } ],
                                            "stderr": [ { "text": "warning: slow network\n" } ],
                                            "retry": 0,
                                            "attachments": [
                                                { "name": "video", "contentType": "video/webm", "path": "test-results/auth-login-invalid/video.webm" },
                                                { "name": "screenshot", "contentType": "image/png", "path": "test-results/auth-login-invalid/test-failed-1.png" },
                                                { "name": "trace", "contentType": "application/zip", "path": "test-results/auth-login-invalid/trace.zip" },
                                                { "name": "inline", "contentType": "text/plain", "body": "aGVsbG8=" }
                                            ]
                                        },
                                        {
                                            "workerIndex": 2,
                                            "status": "failed",
                                            "duration": 5100,
                                            "errors": [ { "message": "Error: still failing" } ],
                                            "stdout": [],
                                            "stderr": [],
                                            "retry": 1,
                                            "attachments": [
                                                { "name": "video", "contentType": "video/webm", "path": "test-results/auth-login-invalid/video.webm" },
                                                { "name": "video", "contentType": "video/webm", "path": "test-results/auth-login-invalid-retry1/video.webm" }
                                            ]
                                        }
                                    ]
                                }
                            ],
                            "id": "a30a6eba6312f6b87ea5-1",
                            "file": "auth/login.spec.ts",
                            "line": 40,
                            "column": 9
                        }
                    ],
                    "suites": []
                },
                {
                    "title": "logout",
                    "file": "auth/login.spec.ts",
                    "specs": [
                        {
                            "title": "logs out",
                            "ok": true,
                            "tests": [
                                {
                                    "status": "expected",
                                    "results": [ { "status": "passed", "duration": 80, "errors": [] } ]
                                }
                            ]
                        }
                    ]
                }
            ]
        }
    ],
    "errors": [],
    "stats": {
        "startTime": "2026-01-01T00:00:00.000Z",
        "duration": 12480.25,
        "expected": 2,
        "skipped": 0,
        "unexpected": 1,
        "flaky": 0
    }
}"#;

fn install_output() -> String {
    let mut s = String::new();
    for (browser, build) in
        [("Chromium 123.0.6312.4", "v1105"), ("Firefox 124.0", "v1446"), ("Webkit 17.4", "v1992")]
    {
        s.push_str(&format!(
            "Downloading {browser} (playwright build {build}) from https://cdn.example/{build}.zip - 137 MiB\n"
        ));
        for p in 0..11 {
            let bar: String = "=".repeat(8 * p);
            s.push_str(&format!("|{:80}| {}% of 137.7 MiB\n", bar, p * 10));
        }
        s.push_str("  12.5 MiB / 137.7 MiB\n");
        s.push_str(&format!(
            "\u{1b}[2m{browser} (playwright build {build}) downloaded to /root/.cache/{build}\u{1b}[22m\n"
        ));
    }
    s.push_str("====================\n");
    s.push_str("Playwright Host validation warning:\n");
    s.push_str("    Host system is missing dependencies:\n        libgtk-4.so.1\n\n");
    s
}

fn args(items: &[&str]) -> Vec<String> {
    items.iter().map(|s| s.to_string()).collect()
}

fn passing(title: &str) -> PlaywrightSpec {
    PlaywrightSpec { title: title.to_string(), ok: true, tests: Vec::new() }
}

fn an_attempt(status: &str, errors: Vec<PlaywrightError>) -> PlaywrightAttempt {
    PlaywrightAttempt {
        status: status.to_string(),
        errors,
        attachments: Vec::new(),
        stdout: Vec::new(),
        stderr: Vec::new(),
    }
}

fn an_error(message: &str) -> PlaywrightError {
    PlaywrightError { message: message.to_string(), stack: None, snippet: None }
}

fn failed(title: &str, tests: Vec<PlaywrightExecution>) -> PlaywrightSpec {
    PlaywrightSpec { title: title.to_string(), ok: false, tests }
}

fn runs(status: &str, results: Vec<PlaywrightAttempt>) -> PlaywrightExecution {
    PlaywrightExecution { status: status.to_string(), results }
}

fn a_suite(title: &str, specs: Vec<PlaywrightSpec>, suites: Vec<PlaywrightSuite>) -> PlaywrightSuite {
    PlaywrightSuite { title: title.to_string(), file: None, specs, suites }
}

fn block(spec: &PlaywrightSpec, idx: usize) -> String {
    let mut out = String::new();
    emit_failure_block(spec, "f.ts", idx, &mut out);
    out
}

#[test]
fn test_playwright_parser_json() {
    let json = r#"{
            "config": {},
            "stats": {
                "startTime": "2026-01-01T00:00:00.000Z",
                "expected": 1,
                "unexpected": 0,
                "skipped": 0,
                "flaky": 0,
                "duration": 7300.5
            },
            "suites": [
                {
                    "title": "auth",
                    "specs": [],
                    "suites": [
                        {
                            "title": "login.spec.ts",
                            "specs": [
                                {
                                    "title": "should login",
                                    "ok": true,
                                    "tests": [
                                        {
                                            "status": "expected",
                                            "results": [{"status": "passed", "errors": [], "duration": 2300}]
                                        }
                                    ]
                                }
                            ],
                            "suites": []
                        }
                    ]
                }
            ],
            "errors": []
        }"#;

    let result = parse(json);
    assert_eq!(result.tier(), 1);
    assert!(result.is_ok());

    let data = result.unwrap();
    assert_eq!(data.passed, 1);
    assert_eq!(data.failed, 0);
    assert_eq!(data.duration_ms, Some(7300));
}

#[test]
fn test_playwright_parser_json_float_duration() {
    let json = r#"{
            "stats": {
                "startTime": "2026-02-18T10:17:53.187Z",
                "expected": 4,
                "unexpected": 0,
                "skipped": 0,
                "flaky": 0,
                "duration": 3519.7039999999997
            },
            "suites": [],
            "errors": []
        }"#;

    let result = parse(json);
    assert_eq!(result.tier(), 1);
    assert!(result.is_ok());

    let data = result.unwrap();
    assert_eq!(data.passed, 4);
    assert_eq!(data.duration_ms, Some(3519));
}

#[test]
fn test_playwright_parser_json_with_failure() {
    let json = r#"{
            "stats": {
                "expected": 0,
                "unexpected": 1,
                "skipped": 0,
                "duration": 1500.0
            },
            "suites": [
                {
                    "title": "my.spec.ts",
                    "specs": [
                        {
                            "title": "should work",
                            "ok": false,
                            "tests": [
                                {
                                    "status": "unexpected",
                                    "results": [
                                        {
                                            "status": "failed",
                                            "errors": [{"message": "Expected true to be false"}],
                                            "duration": 500
                                        }
                                    ]
                                }
                            ]
                        }
                    ],
                    "suites": []
                }
            ],
            "errors": []
        }"#;

    let result = parse(json);
    assert_eq!(result.tier(), 1);
    assert!(result.is_ok());

    let data = result.unwrap();
    assert_eq!(data.failed, 1);
    assert_eq!(data.failures.len(), 1);
    assert_eq!(data.failures[0].test_name, "should work");
    assert_eq!(data.failures[0].error_message, "Expected true to be false");
}

#[test]
fn test_playwright_parser_regex_fallback() {
    let text = "3 passed (7.3s)";
    let result = parse(text);
    assert_eq!(result.tier(), 2);
    assert!(result.is_ok());

    let data = result.unwrap();
    assert_eq!(data.passed, 3);
    assert_eq!(data.failed, 0);
}

#[test]
fn test_playwright_parser_passthrough() {
    let invalid = "random output";
    let result = parse(invalid);
    assert_eq!(result.tier(), 3);
    assert!(!result.is_ok());
}

#[test]
fn test_failure_emits_artifact_block() {
    let json = decode(ARTIFACTS).expect("fixture must parse");
    let output = format_rich_output(&json);

    assert!(output.starts_with("PASS (2) FAIL (1)"), "summary missing: {output}");
    assert!(
        output.contains("test-results/auth-login-invalid/video.webm"),
        "video path must appear:\n{output}"
    );
    assert!(
        output.contains("test-results/auth-login-invalid/test-failed-1.png"),
        "screenshot path must appear:\n{output}"
    );
    assert!(
        output.contains("test-results/auth-login-invalid/trace.zip"),
        "trace path must appear:\n{output}"
    );
    assert!(output.contains("── snippet ──"), "snippet header missing:\n{output}");
    assert!(output.contains("> 44 |"), "marker line missing:\n{output}");
    assert!(output.contains("Time: 12480ms"), "duration missing");
}

#[test]
fn test_retries_dedupe_attachments() {
    let json = decode(ARTIFACTS).expect("fixture must parse");
    let output = format_rich_output(&json);

    let primary_video = "test-results/auth-login-invalid/video.webm";
    let count = output.matches(primary_video).count();
    assert_eq!(count, 1, "primary video path should appear once, not per attempt: {output}");
    assert!(output.contains("retries: 1"), "retry count line missing:\n{output}");
}

#[test]
fn test_stack_strips_node_modules() {
    let stack = "Error: boom\n    at userFn (/app/src/a.ts:10:1)\n    at userFn2 (/app/src/b.ts:20:1)\n    at nmFn (/app/node_modules/@playwright/test/lib/x.js:1:1)\n    at nmFn2 (/app/node_modules/deep/y.js:2:2)\n    at userFn3 (/app/src/c.ts:30:1)\n    at userFn4 (/app/src/d.ts:40:1)\n    at userFn5 (/app/src/e.ts:50:1)\n    at userFn6 (/app/src/f.ts:60:1)";
    let trimmed = trim_stack(stack);
    assert!(!trimmed.contains("node_modules/"), "node_modules frames should be dropped:\n{trimmed}");
    assert!(trimmed.lines().count() <= MAX_STACK_FRAMES, "frame cap violated");
    assert!(trimmed.contains("userFn ("), "first user frame must remain");
}

#[test]
fn test_stack_keeps_lone_node_modules_frame() {
    let stack = "Error: boom\n    at internalCall (/app/node_modules/foo/bar.js:1:1)";
    let trimmed = trim_stack(stack);
    assert!(!trimmed.is_empty(), "lone node_modules frame must be kept");
}

#[test]
fn test_snippet_window_around_marker() {
    let snippet = "  40 | a\n  41 | b\n  42 | c\n> 43 | d\n     | ^\n  44 | e\n  45 | f\n  46 | g";
    let trimmed = trim_snippet(snippet);
    assert!(trimmed.contains("41 | b"), "context above missing:\n{trimmed}");
    assert!(trimmed.contains("> 43 | d"), "marker missing:\n{trimmed}");
    assert!(
        trimmed.contains("45 | f") || trimmed.contains("     | ^"),
        "context below missing:\n{trimmed}"
    );
    assert!(!trimmed.contains("46 | g"), "too much context kept:\n{trimmed}");
}

#[test]
fn test_stdout_tail_only_on_failure() {
    let json = decode(ARTIFACTS).expect("fixture must parse");
    let output = format_rich_output(&json);

    assert!(output.contains("Uncaught TypeError"), "failed test stdout must appear:\n{output}");
    assert!(
        !output.contains("should NOT appear"),
        "passing test stdout leaked into output:\n{output}"
    );
}

#[test]
fn test_reporter_flag_disables_injection() {
    let args_a: [String; 2] = ["test".into(), "--reporter=list".into()];
    let args_b: [String; 3] = ["test".into(), "--reporter".into(), "line".into()];
    let args_c: [String; 2] = ["test".into(), "--headed".into()];

    assert!(user_set_reporter(&args_a), "--reporter=X must be detected");
    assert!(user_set_reporter(&args_b), "--reporter X must be detected");
    assert!(!user_set_reporter(&args_c), "unrelated flag must not trigger");
}

#[test]
fn test_install_subcommand_detection() {
    let empty: [String; 0] = [];
    assert!(is_install_subcommand(&["install".to_string()]));
    assert!(is_install_subcommand(&["install-deps".to_string()]));
    assert!(!is_install_subcommand(&["test".to_string()]));
    assert!(!is_install_subcommand(&empty));
}

#[test]
fn test_install_savings() {
    let input = install_output();
    let output = filter_install(&input);

    let raw_tokens = count_tokens(&input);
    let filtered_tokens = count_tokens(&output);
    let savings = 100.0 - (filtered_tokens as f64 / raw_tokens as f64 * 100.0);

    assert!(
        savings >= 60.0,
        "playwright install: expected ≥60% savings, got {:.1}% ({} → {} tokens)\n---\n{}",
        savings,
        raw_tokens,
        filtered_tokens,
        output
    );
}

#[test]
fn test_install_structural() {
    let output = filter_install(&install_output());

    assert!(output.contains("Chromium 123.0.6312.4"), "chromium version line missing:\n{output}");
    assert!(output.contains("Firefox 124.0"), "firefox line missing:\n{output}");
    assert!(output.contains("Webkit 17.4"), "webkit line missing:\n{output}");
    assert!(output.contains("Host validation warning"), "warning line missing:\n{output}");
    assert!(output.contains("libgtk-4.so.1"), "dependency detail must survive");

    assert!(!output.contains("| 0% of"), "progress bar leaked:\n{output}");
    assert!(!output.contains("|====="), "progress bar leaked");
}

#[test]
fn test_install_fallback_on_empty_filter() {
    let raw = "|                        | 0% of 10 MiB\n|====                    | 12% of 10 MiB";
    let out = filter_install(raw);
    assert!(!out.is_empty(), "must not return empty output");
}

#[test]
fn test_rich_savings_against_raw_json() {
    let json = decode(ARTIFACTS).expect("fixture must parse");
    let output = format_rich_output(&json);

    let raw_tokens = count_tokens(ARTIFACTS);
    let filtered_tokens = count_tokens(&output);
    let savings = 100.0 - (filtered_tokens as f64 / raw_tokens as f64 * 100.0);

    assert!(
        savings >= 40.0,
        "playwright rich format savings floor: got {:.1}% ({} → {})\n---\n{}",
        savings,
        raw_tokens,
        filtered_tokens,
        output
    );
}

#[test]
fn the_rich_report_is_exact() {
    let json = decode(ARTIFACTS).expect("fixture must parse");
    assert_eq!(
        format_rich_output(&json),
        "PASS (2) FAIL (1)\n\
         \n\
         1. shows an error for a wrong password (auth/login.spec.ts)\n\
         \x20  Error: expect(locator).toHaveText(expected)\n\
         \x20  \n\
         \x20  Expected: Invalid password\n\
         \x20      at /app/tests/auth/login.spec.ts:44:27\n\
         \x20  ── snippet ──\n\
         \x20    42 |   await page.click('#go');\n\
         \x20    43 |   const alert = page.locator('.alert');\n\
         \x20  > 44 |   await expect(alert).toHaveText('Invalid password');\n\
         \x20       |                       ^\n\
         \x20    45 | });\n\
         \x20  ── artifacts ──\n\
         \x20  video:       test-results/auth-login-invalid/video.webm\n\
         \x20  screenshot:  test-results/auth-login-invalid/test-failed-1.png\n\
         \x20  trace:       test-results/auth-login-invalid/trace.zip\n\
         \x20  video:       test-results/auth-login-invalid-retry1/video.webm\n\
         \x20  ── stdout (tail) ──\n\
         \x20  Uncaught TypeError: x is undefined\n\
         \x20  warning: slow network\n\
         \x20  retries: 1 (artifact paths deduped by name+path)\n\
         \n\
         Time: 12480ms\n"
    );
}

#[test]
fn the_summary_counts_skipped_tests() {
    let json = PlaywrightJsonOutput {
        stats: PlaywrightStats { expected: 10, unexpected: 0, skipped: 3, duration: 5 },
        suites: Vec::new(),
    };
    assert_eq!(format_rich_output(&json), "PASS (10) FAIL (0) skipped (3)\n\nTime: 5ms\n");
}

#[test]
fn failures_are_numbered_through_the_tree() {
    let run = || vec![runs("unexpected", vec![an_attempt("failed", vec![an_error("m")])])];
    let suites = vec![
        a_suite(
            "a.ts",
            vec![failed("one", run()), passing("fine")],
            vec![a_suite("inner", vec![failed("two", run())], Vec::new())],
        ),
        a_suite("b.ts", vec![failed("nothing ran", Vec::new()), failed("four", run())], Vec::new()),
    ];
    let mut idx: usize = 6;
    let mut out = String::from("<");
    walk_failures(&suites, &mut idx, &mut out);
    assert_eq!(
        out,
        "<\n7. one (a.ts)\n   m\n\n8. two (inner)\n   m\n\n10. four (b.ts)\n   m\n"
    );
    assert_eq!(idx, 10);
    assert_eq!(count_specs(&suites), Some(5));
}

#[test]
fn failures_are_collected_through_the_tree() {
    let mut outer = a_suite(
        "title",
        vec![passing("p"), failed("no run", Vec::new())],
        vec![a_suite(
            "inner",
            vec![failed(
                "timed out",
                vec![
                    runs("expected", vec![an_attempt("failed", vec![an_error("not this")])]),
                    runs(
                        "unexpected",
                        vec![
                            an_attempt("interrupted", vec![an_error("nor this")]),
                            an_attempt("timedOut", vec![an_error("this"), an_error("that")]),
                        ],
                    ),
                ],
            )],
            Vec::new(),
        )],
    );
    outer.file = Some(String::from("outer.ts"));
    let mut total: usize = 4;
    let mut failures = Vec::new();
    collect_test_results(&[outer], &mut total, &mut failures);
    assert_eq!(total, 7);
    assert_eq!(failures.len(), 2);
    assert_eq!(failures[0].test_name, "no run");
    assert_eq!(failures[0].file_path, "outer.ts");
    assert_eq!(failures[0].error_message, "Test failed");
    assert!(failures[0].stack_trace.is_none());
    assert_eq!(failures[1].test_name, "timed out");
    assert_eq!(failures[1].file_path, "inner");
    assert_eq!(failures[1].error_message, "this");
}

#[test]
fn a_block_falls_back_to_the_first_execution() {
    let s = failed("t", vec![runs("flaky", vec![an_attempt("failed", vec![an_error("a\nb")])])]);
    assert_eq!(block(&s, 1), "\n1. t (f.ts)\n   a\n   b\n");
    let s = failed("t", vec![runs("flaky", Vec::new())]);
    assert_eq!(block(&s, 1), "");
    let s = failed("t", vec![runs("unexpected", vec![an_attempt("failed", Vec::new())])]);
    assert_eq!(block(&s, 1), "\n1. t (f.ts)\n");
}

#[test]
fn artifacts_without_a_name_are_files() {
    let mut a = an_attempt("failed", Vec::new());
    for (name, path) in [
        ("", Some("p")),
        ("", Some("p")),
        ("a name beyond the column", Some("q")),
        ("x", None),
        ("x", Some("p")),
    ] {
        a.attachments.push(PlaywrightAttachment {
            name: name.to_string(),
            path: path.map(|p| p.to_string()),
        });
    }
    let s = failed("t", vec![runs("unexpected", vec![a])]);
    assert_eq!(
        block(&s, 2),
        "\n2. t (f.ts)\n   ── artifacts ──\n   file:        p\n   a name beyond the column: q\n   x:           p\n"
    );
}

#[test]
fn only_the_end_of_the_output_is_shown() {
    let text = format!("\u{1b}[1m{}\u{1b}[0m{}\n", "a".repeat(100), "é".repeat(499));
    let mut a = an_attempt("failed", Vec::new());
    a.stdout.push(PlaywrightStream { text: Some(text) });
    a.stdout.push(PlaywrightStream { text: None });
    let s = failed("t", vec![runs("unexpected", vec![a])]);
    assert_eq!(
        block(&s, 1),
        format!("\n1. t (f.ts)\n   ── stdout (tail) ──\n   {}\n", "é".repeat(499))
    );

    let mut blank = an_attempt("failed", Vec::new());
    blank.stderr.push(PlaywrightStream { text: Some(String::from(" \n")) });
    let s = failed("t", vec![runs("unexpected", vec![blank])]);
    assert_eq!(block(&s, 1), "\n1. t (f.ts)\n");

    let mut colours = an_attempt("failed", Vec::new());
    colours.stderr.push(PlaywrightStream { text: Some(String::from("\u{1b}[0m")) });
    let s = failed("t", vec![runs("unexpected", vec![colours])]);
    assert_eq!(block(&s, 1), "\n1. t (f.ts)\n");
}

#[test]
fn dependencies_are_shown_up_to_the_first_user_frame() {
    assert_eq!(
        trim_stack(
            "x\n at a (node_modules/a)\n at b (node_modules/b)\nat c (src/c)\n at d (node_modules/d)\n at e (src/e)"
        ),
        " at a (node_modules/a)\n at b (node_modules/b)\nat c (src/c)\n at e (src/e)"
    );
    assert_eq!(trim_stack("Error: no frames\nattic"), "");
    assert_eq!(trim_stack("at 1\nat 2\nat 3\nat 4\nat 5\nat 6"), "at 1\nat 2\nat 3\nat 4\nat 5");
}

#[test]
fn snippets_at_the_edges() {
    assert_eq!(trim_snippet("> a\nb\nc\nd"), "> a\nb\nc");
    assert_eq!(trim_snippet("a\nb\nc\n  > d"), "b\nc\n  > d");
    assert_eq!(trim_snippet("a\nb\nc\nd\ne\nf"), "a\nb\nc\nd\ne");
    assert_eq!(trim_snippet("a\n>b\n>c\nd\ne"), "a\n>b\n>c\nd");
    assert_eq!(trim_snippet(""), "");
}

#[test]
fn the_install_report_is_exact() {
    assert_eq!(
        filter_install(
            "Downloading Chromium 1234 bytes\n|==  | 45%\n 1.2 MiB / 3.4 MiB\n\n---- ||\n\u{1b}[1mdone\u{1b}[0m\r\nDownloading x - 3 MB\n  ok"
        ),
        "done\n  ok\n(2 download progress lines omitted)"
    );
    assert_eq!(filter_install("a\nb\n"), "a\nb");
    assert_eq!(filter_install("Downloading 5 bytes\n"), "Downloading 5 bytes\n");
    assert_eq!(filter_install("\u{1b}[0m\n===\n"), "\u{1b}[0m\n===\n");
    assert_eq!(filter_install(""), "");
    // An announcement without a size is kept.
    assert_eq!(filter_install("Downloading from a mirror"), "Downloading from a mirror");
}

#[test]
fn lines_are_classified() {
    assert_eq!(classify_line("  ", false, true), LineKind::Noise);
    assert_eq!(classify_line("text", true, true), LineKind::Noise);
    assert_eq!(classify_line("====", false, true), LineKind::Download);
    assert_eq!(classify_line(" =-|. =", false, false), LineKind::Noise);
    assert_eq!(classify_line("= x =", false, false), LineKind::Kept);
    assert_eq!(
        report_classified("a\nb\nc", &[LineKind::Noise, LineKind::Kept, LineKind::Download]),
        "b\n(1 download progress lines omitted)"
    );
    assert_eq!(report_classified("a\nb", &[LineKind::Noise, LineKind::Download]), "a\nb");
}

#[test]
fn the_last_count_of_each_kind_holds() {
    let counts =
        extract_counts("1 failed\n2 flaky\n\u{1b}[32m  4 passed\u{1b}[0m\n9 failed 3 skipped\n");
    assert_eq!(counts, Counts { passed: 4, failed: 9, skipped: 3 });
    assert_eq!(
        extract_counts("99999999999999999999999 passed, 2 failed"),
        Counts { passed: 0, failed: 2, skipped: 0 }
    );
    let group = |s: &str| Some(s.to_string());
    assert_eq!(
        tally(&vec![
            vec![group("7 passed"), group("7"), group("passed")],
            vec![group("1 flaky"), group("1"), group("flaky")],
            vec![group("x skipped"), group("x"), group("skipped")],
        ]),
        Counts { passed: 7, failed: 0, skipped: 0 }
    );
}

#[test]
fn the_text_of_a_run_is_read() {
    let output = "  ✗  3 [chromium] › auth/login.spec.ts:5:1 › logs in (2s)\n  ✓  4 fine › b.spec.tsx\n  × [ff] › c.spec.js\n  2 failed\n  5 passed (1.5m)\n";
    let result = extract_playwright_regex(output, Some(90000)).unwrap();
    assert_eq!(
        (result.total, result.passed, result.failed, result.skipped),
        (7, 5, 2, 0)
    );
    assert_eq!(result.duration_ms, Some(90000));
    assert_eq!(result.failures.len(), 2);
    assert_eq!(result.failures[0].test_name, "✗  3 [chromium] › auth/login.spec.ts");
    assert_eq!(result.failures[0].file_path, "auth/login.spec.ts");
    assert_eq!(result.failures[0].error_message, "");
    assert_eq!(result.failures[1].test_name, "× [ff] › c.spec.js");
    assert_eq!(extract_failures_regex("nothing failed").len(), 0);
    assert!(extract_playwright_regex("0 passed", None).is_none());
    assert!(extract_playwright_regex("no counts here", None).is_none());

    let made = failures_from_matches(&vec![vec![Some("whole".to_string()), Some("file".to_string())]]);
    assert_eq!((made[0].test_name.as_str(), made[0].file_path.as_str()), ("whole", "file"));
    let counts = Counts { passed: 0, failed: 1, skipped: 0 };
    assert_eq!(result_from_counts(counts, None, made).unwrap().total, 1);
}

#[test]
fn durations_are_found_with_their_unit() {
    for (output, value, millis) in [
        ("3 passed (7.3s)", "7.3", 1000),
        ("(120ms) then (5s)", "120", 1),
        ("\u{1b}[2m(1.5m)\u{1b}[22m", "1.5", 60000),
    ] {
        let d = find_duration(output).unwrap();
        assert_eq!((d.value.as_str(), d.millis_per_unit), (value, millis));
    }
    assert!(find_duration("7.3s").is_none());
    assert!(find_duration("(7.s)").is_none());
    let d = duration_from_groups(&vec![
        Some("(2s)".to_string()),
        Some("2".to_string()),
        Some("s".to_string()),
    ]);
    assert_eq!((d.value.as_str(), d.millis_per_unit), ("2", 1000));
}

#[test]
fn a_degraded_result_says_why() {
    let prepared = || Prepared {
        decoded: Err(String::from("expected value")),
        duration_ms: Some(7300),
        passthrough: String::from("short"),
    };
    match PlaywrightParser::parse("3 passed, 1 skipped", prepared()) {
        ParseResult::Degraded(result, warnings) => {
            assert_eq!(warnings, vec![String::from("JSON parse failed: expected value")]);
            assert_eq!((result.total, result.skipped), (4, 1));
            assert_eq!(result.duration_ms, Some(7300));
        }
        other => panic!("{other:?}"),
    }
    match PlaywrightParser::parse("random", prepared()) {
        ParseResult::Passthrough(s) => assert_eq!(s, "short"),
        other => panic!("{other:?}"),
    }
    match report_tests("3 passed", prepared()) {
        Some(TestReport::Result(result, warnings)) => {
            assert_eq!((result.passed, warnings.len()), (3, 1))
        }
        other => panic!("{other:?}"),
    }
    match report_tests("random", prepared()) {
        Some(TestReport::Passthrough(s)) => assert_eq!(s, "short"),
        other => panic!("{other:?}"),
    }
    match report_tests(ARTIFACTS, prepare(ARTIFACTS)) {
        Some(TestReport::Rich(s)) => assert!(s.starts_with("PASS (2) FAIL (1)\n")),
        other => panic!("{other:?}"),
    }
}

#[test]
fn counts_that_do_not_add_up_are_refused() {
    let output = format!("{} passed 1 failed", usize::MAX);
    assert!(PlaywrightParser::checked_parse(&output, prepare(&output)).is_none());
    assert!(report_tests(&output, prepare(&output)).is_none());
    let output = format!("{} passed", usize::MAX);
    let result = PlaywrightParser::checked_parse(&output, prepare(&output)).unwrap();
    assert_eq!(result.unwrap().total, usize::MAX);
    let full = PlaywrightParser::checked_parse(ARTIFACTS, prepare(ARTIFACTS)).unwrap();
    assert_eq!(full.unwrap().total, 3);
}

#[test]
fn the_command_asks_for_json() {
    let line = command_line("pnpm", &args(&["test", "--headed", "a.spec.ts"]));
    assert_eq!(line.program, "pnpm");
    assert_eq!(
        line.args,
        args(&["exec", "--", "playwright", "test", "--reporter=json", "--headed", "a.spec.ts"])
    );
    let line = command_line("yarn", &args(&["test"]));
    assert_eq!(line.program, "yarn");
    assert_eq!(line.args, args(&["exec", "--", "playwright", "test", "--reporter=json"]));
}

#[test]
fn other_commands_are_left_alone() {
    for given in [
        args(&["test", "--reporter=list"]),
        args(&["test", "a", "--reporter", "line"]),
        args(&["install", "chromium"]),
        args(&["show-report"]),
        args(&[]),
    ] {
        let line = command_line("npm", &given);
        assert_eq!(line.program, "npx");
        let mut expected = args(&["--no-install", "--", "playwright"]);
        expected.extend(given);
        assert_eq!(line.args, expected);
    }
}

#[test]
fn modes_and_their_output() {
    assert_eq!(output_mode(&args(&["test", "x"])), OutputMode::Test);
    assert_eq!(output_mode(&args(&["test", "--reporter", "x"])), OutputMode::UserReporter);
    assert_eq!(output_mode(&args(&["install-deps"])), OutputMode::Install);
    assert_eq!(output_mode(&args(&["install", "--reporter=x"])), OutputMode::Install);
    assert_eq!(output_mode(&args(&["codegen"])), OutputMode::Passthrough);
    assert_eq!(output_mode(&args(&[])), OutputMode::Passthrough);
    let raw = raw_output("a\n===", "b");
    assert_eq!(raw, "a\n===\nb");
    assert_eq!(report_other(OutputMode::UserReporter, &raw), raw);
    assert_eq!(report_other(OutputMode::Passthrough, &raw), raw);
    assert_eq!(report_other(OutputMode::Install, &raw), "a\nb");
    assert_eq!((exit_status(true, 0), exit_status(false, 3)), (0, 3));
}

#[test]
fn filtering_an_installation_twice_changes_nothing() {
    let once = filter_install(&install_output());
    assert!(once.ends_with("(3 download progress lines omitted)"), "{once}");
    assert_eq!(filter_install(&once), once);
    for input in ["", "a\r\nb\r\n", "===\n", "Downloading 5 bytes\nx"] {
        let once = filter_install(input);
        assert_eq!(filter_install(&once), once);
    }
}
