//! How tool calls are shown.

use serde_json::Value;
use tact_tui::draw::{Look, Tone, Words};
use tact_tui::json::{contains_image_data, Document, Field, Json, Number};
use tact_tui::tool::memory::{format_score, MemoryKey, Operation};
use tact_tui::tool::code::source_markdown;
use tact_tui::tool::{
    detail_width, presenter, render, render_expanded, status_symbol, truncate, Presentation, Presenter,
    ToolEntry, ToolState,
};
use tact_tui::tool::shell::shell_outcome;
use unicode_width::UnicodeWidthStr;

fn json_value(value: &Value) -> Json {
    match value {
        Value::Null => Json::Null,
        Value::Bool(truth) => Json::Truth(*truth),
        Value::Number(number) => Json::Number(Number {
            text: number.to_string(),
            signed: number.as_i64(),
            unsigned: number.as_u64(),
            thousandths: number.as_f64().map(|score| format!("{score:.3}")),
        }),
        Value::String(text) => Json::Text(text.clone()),
        Value::Array(values) => Json::List(values.iter().map(json_value).collect()),
        Value::Object(fields) => Json::Object(
            fields
                .iter()
                .map(|(name, value)| Field {
                    name: name.clone(),
                    value: json_value(value),
                })
                .collect(),
        ),
    }
}

fn document(source: &str) -> Document {
    let value: Value = serde_json::from_str(source).unwrap();
    Document {
        value: json_value(&value),
        source: source.to_owned(),
    }
}

fn tool(name: &str, arguments: &str) -> ToolEntry {
    ToolEntry {
        name: name.to_owned(),
        arguments: document(arguments),
        state: ToolState::Succeeded,
        duration_ns: Some(1_200_000_000),
        result: None,
        substeps: Vec::new(),
    }
}

fn line_text(line: &[Words]) -> String {
    line.iter().map(|part| part.text.as_str()).collect()
}

fn texts(lines: &[Vec<Words>]) -> Vec<String> {
    lines.iter().map(|line| line_text(line)).collect()
}

fn collapsed(tool: &ToolEntry, width: u16) -> Vec<String> {
    texts(&render(tool, width, None, None, None))
}

fn expanded(tool: &ToolEntry, width: u16) -> Vec<String> {
    texts(&render_expanded(tool, width, None, None, None))
}

#[test]
fn completed_shell_is_a_single_collapsed_summary() {
    let mut shell = tool(
        "exec_command",
        r#"{"cmd": "cargo test", "workdir": "/work"}"#,
    );
    shell.result = Some(document(
        r#"{"output": "all tests passed\nsecond line", "exit_code": 0, "wall_time_seconds": 1.2}"#,
    ));

    let lines = render(&shell, 80, None, None, None);

    assert_eq!(lines.len(), 1);
    assert_eq!(
        line_text(&lines[0]),
        "  ▶ ✓ Shell  $ cargo test · exit 0 · 1.2s"
    );
    let checkmark = lines[0]
        .iter()
        .find(|part| part.text == "✓ ")
        .expect("successful tool should render a checkmark");
    assert_eq!(checkmark.look.tone, Tone::Green);
}

#[test]
fn collapsed_tool_summary_wraps_instead_of_discarding_overflow() {
    let shell = tool(
        "exec_command",
        r#"{"cmd": "cargo test --all-targets --no-fail-fast --workspace"}"#,
    );

    let lines = collapsed(&shell, 32);
    let rendered = lines.join(" ");
    let rendered = rendered.split_whitespace().collect::<Vec<_>>().join(" ");

    assert!(lines.len() > 1);
    assert!(lines.iter().all(|line| line.width() <= 32));
    assert!(lines
        .iter()
        .skip(1)
        .all(|line| line.starts_with("      ")));
    assert!(rendered.contains("cargo test --all-targets --no-fail-fast --workspace"));
    assert!(rendered.contains("1.2s"));
}

#[test]
fn collapsed_failure_includes_the_first_error_line() {
    let mut shell = tool("exec_command", r#"{"cmd": "cargo test"}"#);
    shell.state = ToolState::Failed;
    shell.result = Some(document(
        r#"{"output": "compilation failed\nmore diagnostics", "exit_code": 101}"#,
    ));

    let lines = collapsed(&shell, 80);

    assert_eq!(lines.len(), 1);
    assert!(lines[0].contains("compilation failed"));
    assert!(!lines[0].contains("more diagnostics"));
}

#[test]
fn killed_shell_renders_failure_without_a_checkmark() {
    let mut shell = tool("exec_command", r#"{"cmd": "sleep 100"}"#);
    shell.state = ToolState::Failed;
    shell.result = Some(document(r#"{"output": "", "exit_code": null}"#));

    let rendered = collapsed(&shell, 80)[0].clone();

    assert!(rendered.contains("× Shell"));
    assert!(rendered.contains("terminated"));
    assert!(!rendered.contains('✓'));
}

#[test]
fn expansion_reveals_shell_output() {
    let mut shell = tool("exec_command", r#"{"cmd": "cargo test"}"#);
    shell.result = Some(document(r#"{"output": "all tests passed", "exit_code": 0}"#));

    let rendered = expanded(&shell, 80).concat();

    assert!(rendered.contains("all tests passed"));
    assert!(rendered.contains("└ 1 line · 16 B"));
}

#[test]
fn image_data_is_never_rendered_verbatim() {
    let mut image = tool("view_image", r#"{"path": "image.png"}"#);
    image.result = Some(document(r#"{"image_url": "data:image/png;base64,AAAA"}"#));

    // The presentation of an image is made outside of the library.
    let given = Presentation::new("Image", "image.png".to_owned())
        .outcome("image returned".to_owned());
    let rendered = texts(&render_expanded(&image, 40, None, None, Some(given))).concat();

    assert!(!rendered.contains("base64"));
    assert!(rendered.contains("image returned"));

    image.name = "mcp__images__show".to_owned();
    let rendered = expanded(&image, 40).concat();

    assert!(!rendered.contains("base64"));
    assert!(rendered.contains("image data · 42 B"));
    assert!(contains_image_data(&image.result.unwrap().value));
}

#[test]
fn every_first_party_tool_has_a_semantic_summary() {
    // Plans, patches and images are presented outside of the library: of those only the row around
    // the given title and subject is tested here.
    let cases = [
        ("exec", r#""text(true)""#, None, "Code  0 emitted items"),
        (
            "update_plan",
            r#"{"plan": [{"step": "done", "status": "completed"}]}"#,
            Some(("Plan", "1/1 complete")),
            "Plan  1/1 complete",
        ),
        (
            "apply_patch",
            r#""*** Begin Patch\n*** Update File: src/main.rs\n+new\n-old\n*** End Patch""#,
            Some(("Patch", "1 file · +1 −1")),
            "Patch  1 file · +1 −1",
        ),
        (
            "view_image",
            r#"{"path": "/tmp/image.png", "detail": "original"}"#,
            Some(("Image", "/tmp/image.png · original")),
            "Image  /tmp/image.png · original",
        ),
        (
            "image_gen__imagegen",
            r#"{"prompt": "a compact terminal"}"#,
            Some(("Image generation", "a compact terminal")),
            "Image generation  a compact terminal",
        ),
        (
            "wait",
            r#"{"cell_id": "12"}"#,
            None,
            "Wait  background work",
        ),
        (
            "mcp__files__read",
            r#"{"path": "/tmp/file"}"#,
            None,
            "files · read  /tmp/file",
        ),
    ];

    for (name, arguments, given, expected) in cases {
        let given = given.map(|(title, subject)| Presentation::new(title, subject.to_owned()));
        let lines = render(&tool(name, arguments), 100, None, None, given);
        let rendered = line_text(&lines[0]);
        assert!(rendered.contains(expected), "{name}: {rendered}");
    }
}

#[test]
fn tool_rendering_never_exceeds_narrow_widths() {
    let mut shell = tool(
        "exec_command",
        r#"{"cmd": "cargo test --all-targets --no-fail-fast"}"#,
    );
    shell.result = Some(document(
        r#"{"output": "a very long output line that must wrap safely", "exit_code": 0}"#,
    ));

    for width in 1..=12 {
        for lines in [collapsed(&shell, width), expanded(&shell, width)] {
            assert!(!lines.is_empty());
            assert!(lines.iter().all(|line| line.width() <= usize::from(width)));
        }
    }
}

#[test]
fn formatted_source_stands_before_what_was_emitted() {
    let mut code = tool("exec", r#"{"input": "text(1)"}"#);
    code.result = Some(document(r#"[{"text": "one"}]"#));
    assert_eq!(source_markdown(&code), "```javascript\ntext(1)\n```");
    assert_eq!(detail_width(40), 34);
    assert_eq!(detail_width(3), 1);

    let plain = texts(&render_expanded(&code, 40, None, None, None));
    assert!(plain.iter().any(|line| line.contains("text(1)")));

    let row = vec![Words {
        text: "formatted".to_owned(),
        look: Look::code(),
    }];
    let rendered = texts(&render_expanded(&code, 40, None, Some(vec![row]), None));
    let source = rendered.iter().position(|line| line.contains("formatted"));
    let output = rendered.iter().position(|line| line.contains("one"));
    assert!(source.is_some() && source < output);
    assert!(!rendered.iter().any(|line| line.contains("text(1)")));
}

#[test]
fn tools_find_their_presenters() {
    assert_eq!(presenter("exec_command"), Presenter::Shell);
    assert_eq!(presenter("memory"), Presenter::Memory);
    assert_eq!(presenter("exec"), Presenter::Code);
    assert_eq!(presenter("update_plan"), Presenter::Given);
    assert_eq!(presenter("mcp__files__read"), Presenter::Generic);
    assert_eq!(status_symbol(ToolState::Running), "◌");
    assert_eq!(truncate("a界b", 3), "a界");
    assert_eq!(truncate("a界b", 2), "a");
}

#[test]
fn results_are_printed_as_indented_json() {
    let mut call = tool("mcp__files__list", r#"{"path": "/tmp"}"#);
    call.result = Some(document(r#"{"files":["a","b"]}"#));

    let rendered = expanded(&call, 80);
    assert!(rendered.iter().any(|line| line.contains("\"files\": [")));
    assert!(rendered.iter().any(|line| line.ends_with("\"a\",")));
}

#[test]
fn documents_print_compactly_and_in_rows() {
    let given = document("{ \"a\" : [ 1 , true ] }");
    assert_eq!(given.compact_text(), "{\"a\":[1,true]}");
    assert_eq!(
        given.pretty_text(),
        "{\n  \"a\": [\n    1,\n    true\n  ]\n}"
    );
}

#[test]
fn shell_outcomes_tell_the_exit_code() {
    let exit = |source: &str| shell_outcome(&Some(document(source)));
    assert_eq!(exit(r#"{"exit_code": 3}"#).as_deref(), Some("exit 3"));
    assert_eq!(
        exit(r#"{"exit_code": null}"#).as_deref(),
        Some("terminated")
    );
    assert_eq!(shell_outcome(&None), None);
}

fn memory(arguments: &str, state: ToolState, result: Option<&str>) -> ToolEntry {
    ToolEntry {
        name: "memory".to_owned(),
        arguments: document(arguments),
        state,
        duration_ns: None,
        result: result.map(document),
        substeps: Vec::new(),
    }
}

fn record(id: i64, version: u64, content: &str) -> String {
    format!(
        r#"{{
            "key": {{"id": {id}, "version": {version}}},
            "content": "{content}",
            "created_at_ms": 10,
            "updated_at_ms": 20,
            "last_scanned_at_ms": null,
            "scan_count": 2,
            "last_used_at_ms": 30,
            "use_count": 1,
            "probation_until_ms": null
        }}"#
    )
}

fn read_of(records: &[String]) -> String {
    format!(
        r#"{{"operation": "read", "memories": [{}]}}"#,
        records.join(", ")
    )
}

fn put_of(record: &str, replaced: &str) -> String {
    format!(r#"{{"operation": "put", "memory": {record}, "replaced": {replaced}}}"#)
}

#[test]
fn summaries_cover_operations_states_and_results() {
    let cases = [
        (
            memory(
                r#"{"operation": "scan", "query": "Rust style"}"#,
                ToolState::Running,
                None,
            ),
            "Memory scan  Rust style",
        ),
        (
            memory(
                r#"{"operation": "scan", "query": "Rust style", "limit": 4}"#,
                ToolState::Succeeded,
                Some(r#"{"operation": "scan", "abstained": true, "candidates": []}"#),
            ),
            "Memory scan  Rust style · abstained",
        ),
        (
            memory(
                r#"{"operation": "read", "ids": [{"id": 7, "version": 2}]}"#,
                ToolState::Succeeded,
                Some(&read_of(&[record(7, 2, "Use early returns.")])),
            ),
            "Memory read  7@v2 · 1 memory",
        ),
        (
            memory(
                r#"{"operation": "read", "ids": [7, 8, 9]}"#,
                ToolState::Succeeded,
                Some(&read_of(&[
                    record(7, 1, "First."),
                    record(8, 1, "Second."),
                    record(9, 1, "Third."),
                ])),
            ),
            "Memory read  7, 8, 9 · 3 memories",
        ),
        (
            memory(
                r#"{"operation": "put", "content": "Use early returns."}"#,
                ToolState::Succeeded,
                Some(&put_of(&record(7, 1, "Use early returns."), "null")),
            ),
            "Memory stored  7@v1",
        ),
        (
            memory(
                r#"{"operation": "put", "content": "Use explicit flow.", "replace": {"id": 7, "version": 1}}"#,
                ToolState::Succeeded,
                Some(&put_of(
                    &record(7, 2, "Use explicit flow."),
                    r#"{"id": 7, "version": 1}"#,
                )),
            ),
            "Memory replaced  7@v2",
        ),
        (
            memory(
                r#"{"operation": "delete", "id": 7, "version": 2}"#,
                ToolState::Succeeded,
                Some(r#"{"operation": "delete", "id": 7}"#),
            ),
            "Memory deleted  7",
        ),
        (
            memory(
                r#"{"operation": "delete", "id": 7, "version": 2}"#,
                ToolState::Failed,
                Some(r#"{"error": "version conflict"}"#),
            ),
            "Memory delete  7@v2 · version conflict",
        ),
    ];

    for (tool, expected) in cases {
        let rendered = collapsed(&tool, 100).join("\n");
        assert!(
            rendered.contains(expected),
            "expected {expected:?} in {rendered:?}"
        );
    }
}

#[test]
fn malformed_and_future_shapes_use_generic_presentation() {
    let cases = [
        memory(r#"{"operation": "scan"}"#, ToolState::Running, None),
        memory(
            r#"{"operation": "archive", "id": 7}"#,
            ToolState::Running,
            None,
        ),
        memory(
            r#"{"operation": "scan", "query": "style"}"#,
            ToolState::Succeeded,
            Some(r#"{"operation": "scan", "candidates": "invalid"}"#),
        ),
    ];

    for tool in cases {
        let rendered = expanded(&tool, 80).join("\n");
        assert!(rendered.contains("arguments and result"), "{rendered}");
    }
}

#[test]
fn collapsed_put_and_read_never_reveal_memory_content() {
    let secret = "private atomic memory contents";
    let put = format!(r#"{{"operation": "put", "content": "{secret}"}}"#);
    let cases = [
        memory(&put, ToolState::Running, None),
        memory(
            &put,
            ToolState::Succeeded,
            Some(&put_of(&record(1, 1, secret), "false")),
        ),
        memory(
            r#"{"operation": "read", "ids": [1]}"#,
            ToolState::Succeeded,
            Some(&read_of(&[record(1, 1, secret)])),
        ),
    ];

    for tool in cases {
        let rendered = collapsed(&tool, 100).join("\n");
        assert!(!rendered.contains(secret), "{rendered}");
    }
}

#[test]
fn expanded_scan_is_bounded_and_whitelists_candidate_fields() {
    let candidates = (0..12)
        .map(|id| {
            format!(
                r#"{{"key": {{"id": {id}, "version": 3}}, "preview": "preview-{id} {}", "score": 0.875, "content": "must not be shown"}}"#,
                "x".repeat(400)
            )
        })
        .collect::<Vec<_>>();
    let result = format!(
        r#"{{"operation": "scan", "abstained": false, "candidates": [{}]}}"#,
        candidates.join(", ")
    );
    let tool = memory(
        r#"{"operation": "scan", "query": "style"}"#,
        ToolState::Succeeded,
        Some(&result),
    );

    let rendered = expanded(&tool, 80).join("\n");

    assert!(rendered.contains("0@v3 · score 0.875"));
    assert!(rendered.contains("7@v3 · score 0.875"));
    assert!(!rendered.contains("8@v3 · score"));
    assert!(!rendered.contains("must not be shown"));
    assert!(rendered.contains("8 of 12 candidates"));
    assert!(!rendered.contains(&"x".repeat(241)));
}

#[test]
fn expanded_read_and_put_show_atomic_content_and_selected_metadata() {
    let cases = [
        memory(
            r#"{"operation": "read", "ids": [9]}"#,
            ToolState::Succeeded,
            Some(&read_of(&[record(9, 4, "Use explicit data flow.")])),
        ),
        memory(
            r#"{"operation": "put", "content": "Use explicit data flow."}"#,
            ToolState::Succeeded,
            Some(&put_of(&record(9, 4, "Use explicit data flow."), "false")),
        ),
    ];

    for tool in cases {
        let rendered = expanded(&tool, 100).join("\n");
        assert!(rendered.contains("Use explicit data flow."), "{rendered}");
        assert!(rendered.contains("created 10 · updated 20"), "{rendered}");
        assert!(rendered.contains("scans 2"), "{rendered}");
        assert!(rendered.contains("uses 1"), "{rendered}");
    }
}

#[test]
fn expansion_controls_and_delete_details_are_semantic() {
    let tool = memory(
        r#"{"operation": "delete", "id": 3, "version": 8}"#,
        ToolState::Succeeded,
        Some(r#"{"operation": "delete", "id": 3}"#),
    );
    let folded = collapsed(&tool, 80).join("\n");
    let unfolded = expanded(&tool, 80).join("\n");

    assert!(folded.contains("▶"));
    assert!(!folded.contains("memory key"));
    assert!(unfolded.contains("▼"));
    assert!(unfolded.contains("└ memory key"));
    assert!(!unfolded.contains("content"));
}

#[test]
fn memory_rendering_never_exceeds_narrow_widths() {
    let tool = memory(
        r#"{"operation": "read", "ids": [{"id": 12345, "version": 7}]}"#,
        ToolState::Succeeded,
        Some(&read_of(&[record(
            12345,
            7,
            "wide content that must wrap safely",
        )])),
    );

    for width in 1..=12 {
        for lines in [collapsed(&tool, width), expanded(&tool, width)] {
            assert!(!lines.is_empty());
            assert!(lines.iter().all(|line| line.width() <= usize::from(width)));
        }
    }
}

#[test]
fn scores_lose_their_trailing_zeros() {
    assert_eq!(format_score("0.875"), "0.875");
    assert_eq!(format_score("0.500"), "0.5");
    assert_eq!(format_score("2.000"), "2");
}

#[test]
fn memory_requests_are_read_from_their_arguments() {
    let arguments = document(r#"{"operation": "delete", "id": 7, "version": 2}"#);
    let operation = Operation::parse(&arguments.value).unwrap();
    assert_eq!(operation.name(), "delete");
    let key = document(r#"{"id": "abc", "version": 2}"#);
    assert_eq!(MemoryKey::parse(&key.value).unwrap().display(), "abc@v2");
    assert!(Operation::parse(&document("{}").value).is_none());
}
