use fusion_executor::diagnostics::{
    resolve_path, snippet, snippet_size_allowed, strip_ansi, tail_lines, Ask, Diagnostics, EnrichAnswer, EnrichStage, Enrichment, Slicer,
    SNIPPET_FILE_MAX_BYTES,
};

fn s() -> Slicer {
    Slicer::new()
}

fn sliced(out: &str) -> Diagnostics {
    s().slice(out, None).finish()
}

/// Answers the questions about a file: whether its directory may be read, where it leads to, whether
/// that has the name of a secret, and what it holds.
fn enriched(e: Enrichment, dir_ok: bool, target: Option<&str>, secret: bool, content: Option<&str>) -> Diagnostics {
    let mut e = e;
    loop {
        let answer = match &e.stage {
            EnrichStage::LiteralDir { .. } => EnrichAnswer::Is(dir_ok),
            EnrichStage::Canonical { .. } => EnrichAnswer::Leads(target.map(|t| t.to_string())),
            EnrichStage::SecretName { .. } => EnrichAnswer::Is(secret),
            EnrichStage::RealPath { .. } => EnrichAnswer::Is(true),
            EnrichStage::RealDir { .. } => EnrichAnswer::Is(true),
            EnrichStage::Source { .. } => EnrichAnswer::Holds(content.map(|c| c.to_string())),
            EnrichStage::Over => return e.finish(),
        };
        e = e.enrich(answer);
    }
}

#[test]
fn each_question_has_its_kind_of_answer() {
    let mut e = s().slice("thread 'main' panicked at src/a.rs:2:1:\nboom", Some("/w"));
    let mut asked = Vec::new();
    while let Some(q) = e.asks() {
        let (kind, path, answer) = match q {
            Ask::MayRead { path } => ("may", path, EnrichAnswer::Is(true)),
            Ask::LeadsTo { path } => ("leads", path, EnrichAnswer::Leads(Some("/real/a.rs".to_string()))),
            Ask::IsSecret { path } => ("secret", path, EnrichAnswer::Is(false)),
            Ask::Reads { path } => ("reads", path, EnrichAnswer::Holds(Some("one\ntwo\n".to_string()))),
        };
        asked.push((kind, path));
        e = e.enrich(answer);
    }
    let asked: Vec<(&str, &str)> = asked.iter().map(|(k, p)| (*k, p.as_str())).collect();
    assert_eq!(
        asked,
        vec![
            ("may", "/w/src"),
            ("leads", "/w/src/a.rs"),
            ("secret", "/real/a.rs"),
            ("may", "/real/a.rs"),
            ("may", "/real"),
            ("reads", "/w/src/a.rs"),
        ]
    );
    assert!(e.finish().code_snippet.unwrap().contains("two"));
}

#[test]
fn extract_python_traceback() {
    let out = "running...\nTraceback (most recent call last):\n  File \"src/core/router.py\", line 142, in forward\n    return x + None\nTypeError: unsupported operand type(s) for +: 'int' and 'NoneType'";
    let d = sliced(out);
    assert_eq!(d.error_type.as_deref(), Some("TypeError"));
    assert_eq!(d.file_path.as_deref(), Some("src/core/router.py"));
    assert_eq!(d.line_number, Some(142));
    assert!(d.raw_trace.as_deref().unwrap().contains("TypeError"));
}

#[test]
fn extract_node_error() {
    let out = "node app.js\nError: Cannot find module 'foo'\n    at require (app.js:10:15)\n    at Object.<anonymous> (app.js:3:1)";
    let d = sliced(out);
    assert_eq!(d.error_type.as_deref(), Some("Error"));
    assert_eq!(d.file_path.as_deref(), Some("app.js"));
    assert_eq!(d.line_number, Some(10));
    assert!(d.raw_trace.as_deref().unwrap().contains("Cannot find module"));
}

#[test]
fn extract_rust_panic() {
    let out = "thread 'main' panicked at src/main.rs:42:10:\nindex out of bounds";
    let d = sliced(out);
    assert_eq!(d.error_type.as_deref(), Some("panic"));
    assert_eq!(d.file_path.as_deref(), Some("src/main.rs"));
    assert_eq!(d.line_number, Some(42));
}

#[test]
fn extract_swift_error() {
    let out = "swift build\nmain.swift:15:7: error: use of unresolved identifier 'foo'\nlet x = foo";
    let d = sliced(out);
    assert_eq!(d.error_type.as_deref(), Some("error"));
    assert_eq!(d.file_path.as_deref(), Some("main.swift"));
    assert_eq!(d.line_number, Some(15));
}

#[test]
fn extract_ts_compiler_error() {
    let out = "tsc\nsrc/router.ts(42,7): error TS2322: Type 'string' is not assignable to type 'number'.";
    let d = sliced(out);
    assert_eq!(d.error_type.as_deref(), Some("TS2322"));
    assert_eq!(d.file_path.as_deref(), Some("src/router.ts"));
    assert_eq!(d.line_number, Some(42));
    assert!(d.raw_trace.as_deref().unwrap().contains("TS2322"));
}

#[test]
fn extract_ts_watch_error() {
    let out = "tsc -w\nsrc/util.ts:10:5 - error TS7006: Parameter 'x' implicitly has an 'any' type.";
    let d = sliced(out);
    assert_eq!(d.error_type.as_deref(), Some("TS7006"));
    assert_eq!(d.file_path.as_deref(), Some("src/util.ts"));
    assert_eq!(d.line_number, Some(10));
}

#[test]
fn extract_bun_runtime_error() {
    let out = "bun run app.ts\nerror: Could not resolve: \"foo\"\n    at /Users/x/app.ts:5:18";
    let d = sliced(out);
    assert_eq!(d.error_type.as_deref(), Some("error"));
    assert_eq!(d.file_path.as_deref(), Some("/Users/x/app.ts"));
    assert_eq!(d.line_number, Some(5));
    assert!(d.raw_trace.as_deref().unwrap().contains("Could not resolve"));
}

#[test]
fn extract_go_panic() {
    let out = "go run main.go\npanic: runtime error: index out of range [1] with length 1\n\ngoroutine 1 [running]:\nmain.main()\n\t/Users/x/main.go:12 +0x1b4";
    let d = sliced(out);
    assert_eq!(d.error_type.as_deref(), Some("panic"));
    assert_eq!(d.file_path.as_deref(), Some("/Users/x/main.go"));
    assert_eq!(d.line_number, Some(12));
    assert!(d.raw_trace.as_deref().unwrap().contains("runtime error"));
}

#[test]
fn a_go_panic_is_placed_at_its_last_frame() {
    let out = "panic: boom\n\ngoroutine 1 [running]:\nmain.f()\n\t/x/a.go:5 +0x1\nmain.main()\n\t/x/b.go:9 +0x2";
    let d = Slicer::new().extract_go_panic(out).unwrap();
    assert_eq!(d.error_type.as_deref(), Some("panic"));
    assert_eq!(d.raw_trace.as_deref(), Some("panic: boom"));
    assert_eq!(d.file_path.as_deref(), Some("/x/b.go"));
    assert_eq!(d.line_number, Some(9));

    // A frame whose line cannot be read does not hide the one above it.
    let out = "panic: boom\n\ngoroutine 1 [running]:\nmain.f()\n\t/x/a.go:5 +0x1\nmain.main()\n\t/x/b.go:99999999999 +0x2";
    let d = Slicer::new().extract_go_panic(out).unwrap();
    assert_eq!(d.file_path.as_deref(), Some("/x/a.go"));
    assert_eq!(d.line_number, Some(5));

    // Where no line can be read, the file of the last frame stays.
    let out = "panic: boom\n\ngoroutine 1 [running]:\nmain.main()\n\t/x/b.go:99999999999 +0x2";
    let d = Slicer::new().extract_go_panic(out).unwrap();
    assert_eq!(d.file_path.as_deref(), Some("/x/b.go"));
    assert_eq!(d.line_number, None);

    // Without a frame behind the head nothing is found.
    assert!(Slicer::new().extract_go_panic("panic: boom\n\ngoroutine 1 [running]:\nmain.main()").is_none());
}

#[test]
fn extract_go_compile_error() {
    let out = "go build ./...\n./main.go:8:7: undefined: foo";
    let d = sliced(out);
    assert_eq!(d.error_type.as_deref(), Some("compile error"));
    assert_eq!(d.file_path.as_deref(), Some("./main.go"));
    assert_eq!(d.line_number, Some(8));
    assert!(d.raw_trace.as_deref().unwrap().contains("undefined"));
}

#[test]
fn no_match_keeps_raw_trace() {
    let out = "some random output\nno error here";
    let d = sliced(out);
    assert!(d.error_type.is_none());
    assert!(d.raw_trace.is_some());
    assert_eq!(d.raw_trace.as_deref(), Some("some random output\nno error here"));
}

#[test]
fn snippet_marks_error_line() {
    let body = "a = 1\nb = 2\nc = a + None\nd = 3\n";
    let e = s().slice(
        "Traceback (most recent call last):\n  File \"/work/t.py\", line 3, in <module>\n    c = a + None\nTypeError: bad",
        None,
    );
    let d = enriched(e, true, Some("/work/t.py"), false, Some(body));
    assert_eq!(d.line_number, Some(3));
    let snip = d.code_snippet.as_deref().unwrap();
    assert!(snip.contains("> 3: c = a + None"), "snippet={:?}", snip);
}

#[test]
fn tail_lines_keeps_end() {
    let big = (0..100).map(|i| format!("line {}", i)).collect::<Vec<_>>().join("\n");
    let tail = tail_lines(&big, 5);
    assert!(tail.contains("line 99"));
    assert!(!tail.contains("line 0"));
}

#[test]
fn tail_lines_keeps_error_marker_in_deep_traceback() {
    let mut lines: Vec<String> = (0..40).map(|i| format!("fill line {}", i)).collect();
    lines.push("ValueError: root cause here".to_string());
    lines.push("    at deep (x.py:99:5)".to_string());
    lines.extend((0..5).map(|i| format!("tail line {}", i)));
    let big = lines.join("\n");
    let tail = tail_lines(&big, 20);
    assert!(tail.contains("ValueError: root cause here"), "tail={:?}", tail);
    assert!(tail.contains("at deep (x.py:99:5)"));
    assert!(tail.contains("tail line 4"));
    assert!(!tail.contains("fill line 10"));
}

#[test]
fn python_deep_traceback_keeps_root_error() {
    let mut frames: Vec<String> = Vec::new();
    for i in 0..40 {
        frames.push(format!("  File \"mod{}.py\", line {}, in fn{}", i, i + 1, i));
        frames.push(format!("    x{}()", i));
    }
    frames.push("  File \"src/real.py\", line 142, in forward".into());
    frames.push("    return x + None".into());
    frames.push("TypeError: unsupported operand type(s) for +: 'int' and 'NoneType'".into());
    let mut out = String::from("Traceback (most recent call last):\n");
    out.push_str(&frames.join("\n"));
    out.push_str("\ntail1\ntail2\ntail3");
    let d = sliced(&out);
    assert_eq!(d.error_type.as_deref(), Some("TypeError"));
    assert_eq!(d.file_path.as_deref(), Some("src/real.py"));
    assert_eq!(d.line_number, Some(142));
}

#[test]
fn swift_re_rejects_go_vet_error_format() {
    let out = "go vet ./...\nmain.go:8:7: error: undefined: foo";
    let d = sliced(out);
    assert_eq!(d.error_type.as_deref(), Some("compile error"));
    assert_eq!(d.file_path.as_deref(), Some("main.go"));
    assert_eq!(d.line_number, Some(8));
}

#[test]
fn enrich_rejects_sensitive_path() {
    let out = "Traceback (most recent call last):\n  File \"/etc/shadow\", line 3, in <module>\n    x = 1\nTypeError: bad";
    let e = s().slice(out, None);
    let d = enriched(e, false, Some("/etc/shadow"), true, Some("root:x\na\nb\n"));
    assert_eq!(d.error_type.as_deref(), Some("TypeError"));
    assert_eq!(d.file_path.as_deref(), Some("/etc/shadow"));
    assert!(d.code_snippet.is_none() || d.code_snippet.as_deref().unwrap().is_empty());
}

#[test]
fn enrich_rejects_dotdot_escape() {
    let out = "Traceback (most recent call last):\n  File \"../../etc/shadow\", line 3, in <module>\n    x = 1\nTypeError: bad";
    let e = s().slice(out, None);
    assert!(matches!(e.stage, EnrichStage::Over));
    let d = enriched(e, true, Some("/etc/shadow"), false, Some("root:x\na\nb\n"));
    assert!(d.code_snippet.is_none() || d.code_snippet.as_deref().unwrap().is_empty());
}

#[test]
fn enrich_rejects_ssh_key() {
    let out = "Traceback (most recent call last):\n  File \"~/.ssh/id_rsa\", line 3, in <module>\n    x = 1\nTypeError: bad";
    let e = s().slice(out, None);
    let d = enriched(e, false, Some("/home/u/.ssh/id_rsa"), true, Some("k\nk\nk\n"));
    assert!(d.code_snippet.is_none() || d.code_snippet.as_deref().unwrap().is_empty());
}

#[test]
fn enrich_rejects_symlink_to_sensitive_file() {
    let out = "Traceback (most recent call last):\n  File \"/work/leak.py\", line 3, in <module>\n    x = 1\nTypeError: bad";
    let e = s().slice(out, None);
    let d = enriched(e, true, Some("/home/u/.ssh/id_rsa"), true, Some("a\nb\nFAKE-PRIVATE-KEY-CONTENT\n"));
    assert!(d.code_snippet.is_none());
}

#[test]
fn enrich_allows_legit_symlink_to_source() {
    let out = "Traceback (most recent call last):\n  File \"/work/link_src.py\", line 4, in <module>\n    x = 1\nTypeError: bad";
    let e = s().slice(out, None);
    let d = enriched(e, true, Some("/work/real_src.py"), false, Some("line1\nline2\nline3\nx = 1\nline5\n"));
    assert!(d.code_snippet.is_some());
    assert!(d.code_snippet.unwrap().contains("> 4: x = 1"));
}

#[test]
fn strip_ansi_removes_csi_sgr() {
    let colored = "Traceback (most recent call last):\n  File \u{1b}[35m\"<string>\"\u{1b}[0m, line \u{1b}[35m1\u{1b}[0m, in \u{1b}[35m<module>\u{1b}[0m\n    raise ValueError('boom')\n\u{1b}[1;35mValueError\u{1b}[0m: \u{1b}[35mboom\u{1b}[0m\n";
    let d = sliced(colored);
    assert_eq!(d.error_type.as_deref(), Some("ValueError"));
    assert_eq!(d.file_path.as_deref(), Some("<string>"));
    assert_eq!(d.line_number, Some(1));
}

#[test]
fn strip_ansi_preserves_plain_text() {
    let plain = "Traceback (most recent call last):\n  File \"app.py\", line 2, in <module>\n    raise ValueError('x')\nValueError: x";
    let d = sliced(plain);
    assert_eq!(d.error_type.as_deref(), Some("ValueError"));
    assert_eq!(d.file_path.as_deref(), Some("app.py"));
}

#[test]
fn python_redos_linear_on_large_input() {
    let mut out = String::from("Traceback (most recent call last):\n");
    for _ in 0..100_000 {
        out.push_str("    garbage line without any marker aaaaaaaaaaaaaaa\n");
    }
    out.push_str("  File \"src/x.py\", line 7, in <module>\n");
    out.push_str("    raise ValueError('boom')\n");
    out.push_str("ValueError: boom\n");
    let d = sliced(&out);
    assert_eq!(d.error_type.as_deref(), Some("ValueError"));
    assert_eq!(d.file_path.as_deref(), Some("src/x.py"));
    assert_eq!(d.line_number, Some(7));
}

#[test]
fn go_compile_skips_test_status_lines() {
    let out = "go test ./...\nmain_test.go:15:3: PASS\nmain.go:6:5: undefined: foo";
    let d = sliced(out);
    assert_eq!(d.error_type.as_deref(), Some("compile error"));
    assert_eq!(d.file_path.as_deref(), Some("main.go"));
    assert_eq!(d.line_number, Some(6));
}

#[test]
fn node_re_rejects_inline_error_comment() {
    let out = "// comment Error: foo here\n    at bar (app.js:5:10)";
    let d = sliced(out);
    assert!(d.error_type.is_none() || d.error_type.as_deref() != Some("Error"));
}

#[test]
fn tail_lines_keeps_lowercase_error_marker() {
    let mut out = String::from("bun run\n");
    for i in 0..35 {
        out.push_str(&format!("filler line {}\n", i));
    }
    out.push_str("error: ENOENT: no such file\n");
    out.push_str("    at /app/index.js:10:5");
    let d = sliced(&out);
    assert_eq!(d.error_type.as_deref(), Some("error"));
    assert_eq!(d.file_path.as_deref(), Some("/app/index.js"));
    assert_eq!(d.line_number, Some(10));
}

#[test]
fn plain_text_is_kept_as_it_is() {
    assert_eq!(strip_ansi("no escapes, 中文 too"), "no escapes, 中文 too");
    assert_eq!(strip_ansi("a\u{1b}[1;31mb\u{1b}[0mc"), "abc");
    assert_eq!(strip_ansi("a\u{1b}]0;title\u{7}b"), "ab");
    assert_eq!(strip_ansi("a\u{1b}[1 qb"), "ab");
    assert_eq!(strip_ansi("ab\u{8}c"), "abc");
}

#[test]
fn short_output_is_shown_whole() {
    assert_eq!(tail_lines("a\nb\nc", 3), "a\nb\nc");
    assert_eq!(tail_lines("a\nb\nc\nd", 2), "c\nd");
    assert_eq!(tail_lines("", 2), "");
}

#[test]
fn snippet_shows_the_lines_around() {
    let text = snippet("l1\nl2\nl3\nl4\nl5\nl6\nl7", 4);
    assert!(text.contains("> 4: l4"));
    assert!(text.contains("3: l3"));
    assert!(!text.contains("> 3"));
    assert_eq!(snippet("only\n", 40), "");
}

#[test]
fn source_of_a_refused_file_is_never_asked_for() {
    let out = "thread 'main' panicked at src/main.rs:2:10:\nboom";
    let e = s().slice(out, Some("/work"));
    match &e.stage {
        EnrichStage::LiteralDir { path, line, dir } => {
            assert_eq!(path, "/work/src/main.rs");
            assert_eq!(*line, 2);
            assert_eq!(dir, "/work/src");
        }
        _ => panic!("the directory comes first"),
    }
    let e = e.enrich(EnrichAnswer::Is(true));
    assert!(matches!(e.stage, EnrichStage::Canonical { .. }));
    let e = e.enrich(EnrichAnswer::Leads(None));
    assert!(matches!(e.stage, EnrichStage::Over));
    assert_eq!(e.finish().error_type.as_deref(), Some("panic"));
}

#[test]
fn paths_are_seen_from_the_directory() {
    assert_eq!(resolve_path("a/b.py", Some("/work")), "/work/a/b.py");
    assert_eq!(resolve_path("/a/b.py", Some("/work")), "/a/b.py");
    assert_eq!(resolve_path("a/b.py", None), "a/b.py");
}

#[test]
fn large_sources_are_not_read() {
    assert!(snippet_size_allowed(SNIPPET_FILE_MAX_BYTES));
    assert!(!snippet_size_allowed(SNIPPET_FILE_MAX_BYTES + 1));
}
