//! Journals, storage, clipboard and the main loop.

use serde_json::Value;
use tact_tui::clipboard::{data_url, encode_png, image_data_url, ImageError};
use tact_tui::context::{
    completed_transcript_tokens, usage_from_value, ContextDiagnostics, ContinuationMode, Usage,
};
use tact_tui::errands::{
    link_failed, native_copy_finished, reload_failure, reload_message, terminal_copy_finished,
};
use tact_tui::event::{Event, KeyCode, KeyEvent, Modifiers};
use tact_tui::input::is_image_paste;
use tact_tui::json::{Document, Field, Json, Number};
use tact_tui::main_loop::{EditorCompletion, NewSession};
use tact_tui::node::RenderRequest;
use tact_tui::pane_runtime::{
    close_pane_journal, inject_shell_context, send_submission, validate_interactive, LocalEvent,
    PaneRuntime, PendingSubmission, RuntimeError, SessionOutcome, ShellExecution, WorkerCommand,
};
use tact_tui::panes::AppEffect;
use tact_tui::paths::{database_path, is_web_link, join, local_link_path, parent};
use tact_tui::prompt::Submission;
use tact_tui::record::{TranscriptRecord, SCHEMA_VERSION};
use tact_tui::root::RootEffect;
use tact_tui::runtime::{Action, EditorTarget, Notice, Runtime, WorkerEvent};
use tact_tui::scheduler::{request_render, RenderScheduler, STREAM_FRAME_INTERVAL_MS};
use tact_tui::settings::{PaneId, ReasoningEffort, ReasoningMode, ThemeMode};
use tact_tui::storage::{
    assistant_stream, check_checkpoint, check_version, compress_record, compress_state,
    decompress, from_sql_u64, list, load_transcript, next_turn, other_sessions, plan_record,
    plan_records, prompt_text, read_started, reasoning_mode, sql_limit, to_sql_u64,
    CheckpointError, Encoded, Statement, StorageError, StoredSession,
};

fn json_value(value: &Value) -> Json {
    match value {
        Value::Null => Json::Null,
        Value::Bool(truth) => Json::Truth(*truth),
        Value::Number(number) => Json::Number(Number {
            text: number.to_string(),
            signed: number.as_i64(),
            unsigned: number.as_u64(),
            thousandths: number.as_f64().map(|score| format!("{score:.3}")),
        }),
        Value::String(text) => Json::Text(text.clone()),
        Value::Array(values) => Json::List(values.iter().map(json_value).collect()),
        Value::Object(fields) => Json::Object(
            fields
                .iter()
                .map(|(name, value)| Field {
                    name: name.clone(),
                    value: json_value(value),
                })
                .collect(),
        ),
    }
}

fn document(source: &str) -> Document {
    let value: Value = serde_json::from_str(source).unwrap();
    Document {
        value: json_value(&value),
        source: source.to_owned(),
    }
}

fn agent(sequence: u64, at: u64, kind: &str, payload: &str) -> TranscriptRecord {
    recorded("agent", sequence, at, kind, payload)
}

fn recorded(source: &str, sequence: u64, at: u64, kind: &str, payload: &str) -> TranscriptRecord {
    TranscriptRecord {
        schema_version: SCHEMA_VERSION,
        sequence,
        recorded_at_unix_ms: at,
        source: source.to_owned(),
        kind: kind.to_owned(),
        payload: document(payload),
    }
}

fn api(direction: &str, event: &str) -> String {
    format!(r#"{{"direction": "{direction}", "phase": "generation", "event": {event}}}"#)
}

#[test]
fn complete_telemetry_projects_only_safe_facts_and_counts() {
    let records = vec![
        agent(
            1,
            1,
            "api.event",
            &api(
                "outbound",
                r#"{
                    "prompt_cache_key": "secret-cache-key",
                    "previous_response_id": "secret-response-id",
                    "input": [{"role":"user", "content":"secret prompt"}]
                }"#,
            ),
        ),
        agent(
            2,
            2,
            "model.call.completed",
            r#"{
                "response_id": "secret-continuation-token",
                "usage": {
                    "input_tokens": 1000,
                    "input_tokens_details": {"cached_tokens": 750},
                    "output_tokens": 80,
                    "total_tokens": 1080
                }
            }"#,
        ),
        agent(
            3,
            100,
            "model.compaction.started",
            r#"{
                "active_context_tokens": 900,
                "auto_compact_token_limit": 200000,
                "previous_response_id": "secret-response-id"
            }"#,
        ),
        agent(
            4,
            110,
            "model.compaction.completed",
            r#"{"response_id": "secret-compaction-id"}"#,
        ),
        agent(
            5,
            120,
            "model.call.completed",
            r#"{"usage": {"input_tokens": 400, "output_tokens": 20, "total_tokens": 420}}"#,
        ),
    ];
    let diagnostics = ContextDiagnostics::rebuild(&records);

    assert_eq!(
        diagnostics.continuation,
        Some(ContinuationMode::PreviousResponse)
    );
    assert_eq!(diagnostics.prompt_cache, Some(true));
    assert_eq!(diagnostics.usage.unwrap().total, 420);
    assert_eq!(diagnostics.compactions_started, 1);
    assert_eq!(diagnostics.compactions_completed, 1);
    assert_eq!(diagnostics.model_window_tokens, 272_000);
    assert_eq!(diagnostics.auto_compact_token_limit, 200_000);
    assert_eq!(
        diagnostics.last_compaction.unwrap().before_tokens,
        Some(900)
    );
    assert_eq!(diagnostics.last_compaction.unwrap().after_tokens, Some(400));
    let debug = format!("{diagnostics:?}");
    for secret in [
        "secret-cache-key",
        "secret prompt",
        "secret-response-id",
        "secret-continuation-token",
    ] {
        assert!(!debug.contains(secret));
    }
}

#[test]
fn partial_and_unavailable_telemetry_remain_explicit() {
    let mut diagnostics = ContextDiagnostics::new();
    diagnostics.observe(&agent(1, 10, "model.compaction.started", "{}"));
    diagnostics.observe(&agent(2, 20, "model.compaction.completed", "{}"));
    diagnostics.observe(&agent(3, 30, "api.event", &api("outbound", "{}")));

    assert!(diagnostics.usage.is_none());
    assert_eq!(
        diagnostics.continuation,
        Some(ContinuationMode::FullContext)
    );
    assert_eq!(diagnostics.prompt_cache, Some(false));
    assert_eq!(diagnostics.last_compaction.unwrap().before_tokens, None);
    assert_eq!(diagnostics.last_compaction.unwrap().after_tokens, None);
}

#[test]
fn completed_response_total_remains_available_to_the_composer() {
    let record = agent(
        1,
        1,
        "api.event",
        &api(
            "inbound",
            r#"{"type": "response.completed", "response": {"usage": {"total_tokens": 136000}}}"#,
        ),
    );
    assert_eq!(completed_transcript_tokens(&record), Some(136_000));
}

#[test]
fn uncached_tokens_are_the_rest_of_the_input() {
    let tokens = Usage {
        input_tokens: 1_000,
        input_tokens_details: None,
        output_tokens: 5,
        total_tokens: 1_005,
    }
    .into_tokens();
    assert_eq!(tokens.uncached_input, 1_000);
    assert_eq!(tokens.cached_input, 0);
}

#[test]
fn control_or_super_v_requests_an_image_paste() {
    let paste = |modifiers| {
        is_image_paste(&Event::Key(KeyEvent::new(
            KeyCode::Char('v'),
            modifiers,
        )))
    };
    assert!(paste(Modifiers::control()));
    assert!(paste(Modifiers {
        super_key: true,
        ..Modifiers::none()
    }));
    assert!(!paste(Modifiers::none()));
}

#[test]
fn local_links_resolve_against_the_workspace_and_ignore_line_suffixes() {
    let workspace = "/work/project";

    assert_eq!(
        local_link_path("src/main.rs:42", workspace),
        "/work/project/src/main.rs"
    );
    assert_eq!(
        local_link_path("file:///tmp/example.rs#L7", workspace),
        "/tmp/example.rs"
    );
}

#[test]
fn paths_join_and_know_their_parents() {
    assert_eq!(join("/work", "/etc"), "/etc");
    assert_eq!(join("/work/", "src"), "/work/src");
    assert_eq!(parent("/work/config.toml").as_deref(), Some("/work"));
    assert_eq!(parent("/"), None);
    assert_eq!(
        database_path("/home/config.toml"),
        "/home/sessions/v2.sqlite3"
    );
    assert!(is_web_link("https://example.com"));
    assert!(!is_web_link("src/main.rs"));
}

#[test]
fn bare_non_tty_invocation_points_to_headless_run() {
    let error = validate_interactive(false, true).unwrap_err();

    assert!(matches!(error, RuntimeError::InteractiveTerminal));
    assert!(error.message().contains("tact run <PROMPT>"));
    assert!(validate_interactive(true, true).is_ok());
}

#[test]
fn submission_consumes_pending_shell_context_before_reaching_the_worker() {
    let mut context = vec!["<local_shell_result>done</local_shell_result>".to_owned()];

    let command = send_submission(
        PaneId::Main,
        &mut context,
        PendingSubmission {
            id: 3,
            prompt: Submission::plain_text("explain it".to_owned()),
        },
    );

    assert!(context.is_empty());
    assert!(matches!(
        command,
        WorkerCommand::Submit { pane: PaneId::Main, id: 3, prompt }
            if prompt.display_text()
                == "<local_shell_result>done</local_shell_result>\n\nexplain it"
    ));
}

fn pane(id: PaneId, session: &str, from: Option<&str>) -> PaneRuntime {
    open(id, session, from, 0).0
}

fn open(
    id: PaneId,
    session: &str,
    from: Option<&str>,
    generation: u64,
) -> (PaneRuntime, LocalEvent<String>) {
    let (runtime, record) = PaneRuntime::open(
        id,
        generation,
        session.to_owned(),
        from.map(str::to_owned),
        "model".to_owned(),
        ReasoningEffort::Low,
        "/work".to_owned(),
        "test".to_owned(),
        format!("/sessions/{session}"),
    );
    assert_eq!(record.sequence, 1);
    (runtime, record.event)
}

#[test]
fn fork_pane_has_an_independent_session_and_persisted_transcript() {
    let (main, _) = open(PaneId::Main, "main-session", None, 0);
    let (mut fork, started) = open(PaneId::Fork(1), "fork-session", Some("main-session"), 0);
    let record = fork
        .journal_mut()
        .unwrap()
        .append_local(LocalEvent::UserSubmitted {
            id: 1,
            text: "fork-only prompt".to_owned(),
        });

    assert_eq!(main.session_id, "main-session");
    assert_eq!(fork.session_id, "fork-session");
    assert_ne!(main.writer_path, fork.writer_path);
    assert!(matches!(
        started,
        LocalEvent::SessionStarted { parent_session_id: Some(parent), .. }
            if parent == "main-session"
    ));
    assert_eq!(record.sequence, 2);
    assert!(matches!(record.event, LocalEvent::UserSubmitted { .. }));
}

#[test]
fn replacing_a_pane_closes_the_old_journal_and_starts_a_new_session() {
    let (mut old, _) = open(PaneId::Main, "old-session", None, 0);
    old.journal_mut()
        .unwrap()
        .append_local(LocalEvent::UserSubmitted {
            id: 1,
            text: "old prompt".to_owned(),
        });

    let ended = close_pane_journal(&mut old, SessionOutcome::Closed, None).unwrap();
    let (new, started) = open(PaneId::Main, "new-session", None, 1);

    assert!(matches!(
        ended.event,
        LocalEvent::SessionEnded {
            outcome: SessionOutcome::Closed,
            failure: None
        }
    ));
    assert!(old.journal.is_none());
    assert!(matches!(
        started,
        LocalEvent::SessionStarted { session_id, parent_session_id: None, .. }
            if session_id == "new-session"
    ));
    assert!(new.is_current("new-session", 1));
    assert!(!new.is_current("old-session", 0));
}

fn execution(id: u64) -> ShellExecution<String> {
    ShellExecution {
        id,
        output: "done".to_owned(),
        exit_code: Some(0),
        duration_ns: 1,
        truncated: false,
        error: None,
    }
}

#[test]
fn prompts_wait_for_running_shells() {
    let mut pane = pane(PaneId::Main, "main", None);
    let (_, shell) = pane
        .start_shell("ls".to_owned(), "/work".to_owned())
        .unwrap();
    let (_, command) = pane
        .submit(Submission::plain_text("go".to_owned()))
        .unwrap();
    assert!(command.is_none());

    let (_, command) = pane
        .finish_shell(execution(shell), "context".to_owned())
        .unwrap();
    assert!(matches!(
        command,
        Some(WorkerCommand::Submit { id: 1, prompt, .. }) if prompt.text == "context\n\ngo"
    ));
}

#[test]
fn a_stopped_writer_refuses_records() {
    let mut pane = pane(PaneId::Main, "main", None);
    pane.stop_writer("main", 0);
    let error = pane
        .submit(Submission::plain_text("go".to_owned()))
        .unwrap_err();
    assert!(matches!(&error, RuntimeError::WriterStopped(path) if path == "/sessions/main"));
    assert!(error.message().contains("/sessions/main"));
}

#[test]
fn refused_records_leave_what_was_counted_before() {
    let mut pane = pane(PaneId::Main, "main", None);
    pane.stop_writer("main", 0);
    assert!(pane.submit(Submission::plain_text("go".to_owned())).is_err());
    assert_eq!(pane.next_turn, 2);

    assert!(pane
        .start_shell("ls".to_owned(), "/work".to_owned())
        .is_err());
    assert_eq!(pane.next_shell, 2);
    assert_eq!(pane.active_shells, 1);

    assert!(pane
        .finish_shell(execution(1), "context".to_owned())
        .is_err());
    assert_eq!(pane.active_shells, 0);
    assert_eq!(pane.pending_shell_context, ["context"]);
}

#[test]
fn contexts_stand_before_the_prompt() {
    let mut contexts = vec!["a".to_owned(), "b".to_owned()];
    let prompt = inject_shell_context(&mut contexts, Submission::plain_text("c".to_owned()));
    assert!(contexts.is_empty());
    assert_eq!(prompt.text, "a\n\nb\n\nc");
}

fn runtime() -> Runtime {
    Runtime::new("/work".to_owned(), pane(PaneId::Main, "main", None))
}

fn apply(runtime: &mut Runtime, effect: RootEffect) -> Vec<Action<String, Submission>> {
    runtime
        .apply_pane_effect(PaneId::Main, effect, "draft")
        .unwrap()
}

#[test]
fn requests_of_a_session_become_actions() {
    let mut runtime = runtime();
    let actions = apply(
        &mut runtime,
        RootEffect::Submit(Submission::plain_text("go".to_owned())),
    );
    assert!(matches!(
        actions.as_slice(),
        [
            Action::Record { pane: PaneId::Main, apply: false, .. },
            Action::Send(WorkerCommand::Submit { id: 1, .. }),
        ]
    ));

    let actions = apply(&mut runtime, RootEffect::SetMaxSubagents(4));
    assert!(matches!(
        actions.as_slice(),
        [Action::LimitSubagents { pane: PaneId::Main, limit: 4 }]
    ));
    let actions = apply(
        &mut runtime,
        RootEffect::OpenLink("src/main.rs:3".to_owned()),
    );
    assert!(matches!(
        actions.as_slice(),
        [Action::Edit(EditorTarget::File(path))] if path == "/work/src/main.rs"
    ));
    let actions = apply(
        &mut runtime,
        RootEffect::OpenLink("https://example.com".to_owned()),
    );
    assert!(matches!(
        actions.as_slice(),
        [Action::OpenBrowser { link, .. }] if link == "https://example.com"
    ));

    let actions = apply(&mut runtime, RootEffect::OpenDraftEditor);
    assert!(matches!(
        actions.as_slice(),
        [Action::Edit(EditorTarget::Draft { draft, .. })] if draft == "draft"
    ));
    assert!(!runtime.input);

    let actions = apply(&mut runtime, RootEffect::CancelTurns);
    assert!(matches!(
        actions.as_slice(),
        [
            Action::CancelSubagents(PaneId::Main),
            Action::Send(WorkerCommand::CancelAll(PaneId::Main)),
        ]
    ));
}

#[test]
fn requests_of_the_program_become_actions() {
    let mut runtime = runtime();
    let actions = runtime
        .apply_effect(AppEffect::SetTheme(ThemeMode::Dark), "")
        .unwrap();
    assert!(matches!(
        actions.as_slice(),
        [Action::PersistTheme(ThemeMode::Dark)]
    ));
    let actions = runtime
        .apply_effect(AppEffect::OpenFork(PaneId::Fork(1)), "")
        .unwrap();
    assert!(matches!(
        actions.as_slice(),
        [Action::Send(WorkerCommand::OpenFork(PaneId::Fork(1)))]
    ));
}

#[test]
fn what_the_worker_tells_is_written_down() {
    let mut runtime = runtime();
    let actions = runtime
        .handle_worker(WorkerEvent::TurnFinished {
            pane: PaneId::Main,
            id: 1,
            failure: None,
            checkpoint: true,
        })
        .unwrap();
    assert!(actions.iter().any(|action| matches!(
        action,
        Action::SaveCheckpoint { pane: PaneId::Main, session } if session == "main"
    )));
    assert!(actions.iter().any(|action| matches!(
        action,
        Action::Tell {
            notice: Notice::TurnFinished(PaneId::Main),
            ..
        }
    )));

    let nothing = runtime
        .handle_worker(WorkerEvent::SteerFailed {
            pane: PaneId::Fork(7),
            queue_id: 1,
            error: "gone".to_owned(),
        })
        .unwrap();
    assert!(nothing.is_empty());
}

fn without_journal() -> Runtime {
    let mut main = pane(PaneId::Main, "main", None);
    main.stop_writer("main", 0);
    Runtime::new("/work".to_owned(), main)
}

#[test]
fn checkpoints_are_saved_before_the_record_is_refused() {
    let mut runtime = without_journal();
    let refusal = runtime
        .handle_worker(WorkerEvent::TurnFinished {
            pane: PaneId::Main,
            id: 1,
            failure: None,
            checkpoint: true,
        })
        .unwrap_err();
    assert!(matches!(
        refusal.actions.as_slice(),
        [Action::SaveCheckpoint { pane: PaneId::Main, session }] if session == "main"
    ));
    assert!(
        matches!(&refusal.error, RuntimeError::WriterStopped(path) if path == "/sessions/main")
    );
}

#[test]
fn a_worker_that_stops_needs_every_journal() {
    let mut runtime = without_journal();
    let refusal = runtime
        .handle_worker(WorkerEvent::Stopped {
            reason: Some("gone".to_owned()),
        })
        .unwrap_err();
    assert!(refusal.actions.is_empty());
    assert!(
        matches!(&refusal.error, RuntimeError::WriterStopped(path) if path == "/sessions/main")
    );

    let mut runtime = without_journal();
    let error = runtime
        .shell_finished(PaneId::Main, execution(1), "context".to_owned())
        .unwrap_err();
    assert!(matches!(&error, RuntimeError::WriterStopped(path) if path == "/sessions/main"));
}

#[test]
fn records_of_the_agent_are_numbered_with_the_others() {
    let mut runtime = runtime();
    assert_eq!(
        runtime.number_agent_event(PaneId::Main, "main", 0).unwrap(),
        Some(2)
    );
    let actions = apply(&mut runtime, RootEffect::PersistSteer("left".to_owned()));
    assert!(matches!(
        actions.as_slice(),
        [Action::Record { record, .. }] if record.sequence == 3
    ));
    assert!(without_journal()
        .number_agent_event(PaneId::Main, "main", 0)
        .is_err());
}

fn new_session(id: &str) -> NewSession<String> {
    NewSession {
        session_id: id.to_owned(),
        model: "model".to_owned(),
        effort: ReasoningEffort::High,
        application_version: "test".to_owned(),
        writer_path: format!("/sessions/{id}"),
    }
}

#[test]
fn replaced_sessions_are_not_heard() {
    let mut runtime = runtime();
    assert!(runtime
        .number_agent_event(PaneId::Main, "main", 0)
        .unwrap()
        .is_some());
    runtime.new_session_finished(PaneId::Main, Ok(new_session("next")));

    assert!(runtime
        .number_agent_event(PaneId::Main, "main", 0)
        .unwrap()
        .is_none());
    assert!(runtime
        .number_agent_event(PaneId::Main, "next", 1)
        .unwrap()
        .is_some());
}

#[test]
fn failed_sessions_leave_the_old_one() {
    let mut runtime = runtime();
    let actions = runtime.new_session_finished(PaneId::Main, Err("no key".to_owned()));
    assert!(matches!(
        actions.as_slice(),
        [Action::Tell {
            notice: Notice::NewSessionFailed { error, .. },
            ..
        }] if error == "no key"
    ));
    assert!(runtime.is_current(PaneId::Main, "main", 0));
}

#[test]
fn a_shell_command_that_was_given_up_keeps_nothing_open() {
    let mut runtime = runtime();
    apply(&mut runtime, RootEffect::RunShell("sleep 9".to_owned()));
    runtime.stop();
    runtime.worker_gone();
    runtime.agent_events_ended();
    assert!(!runtime.is_drained());
    runtime.shell_lost();
    assert!(runtime.is_drained());
    assert_eq!(runtime.panes[0].active_shells, 1);
    runtime.shell_lost();
    assert_eq!(runtime.shell_tasks, 0);
}

#[test]
fn a_pane_occurs_once() {
    let mut runtime = runtime();
    runtime.open_fork(PaneId::Fork(1), new_session("fork"));
    runtime.open_fork(PaneId::Fork(1), new_session("again"));
    runtime.new_session_finished(PaneId::Main, Ok(new_session("next")));
    let panes: Vec<(PaneId, &str)> = runtime
        .panes
        .iter()
        .map(|pane| (pane.pane, pane.session_id.as_str()))
        .collect();
    assert_eq!(panes, [(PaneId::Main, "next"), (PaneId::Fork(1), "again")]);
}

#[test]
fn the_loop_ends_when_everything_is_done() {
    let mut runtime = runtime();
    assert!(runtime.has_streams());
    assert!(!runtime.is_finished());
    runtime.stop();
    runtime.worker_gone();
    runtime.agent_events_ended();
    assert!(runtime.is_drained());
    runtime.close_journals();
    runtime.writer_finished(PaneId::Main, "main", 0, false);
    assert!(runtime.is_finished());
}

#[test]
fn edited_drafts_go_back_to_their_session() {
    let mut runtime = runtime();
    apply(&mut runtime, RootEffect::OpenDraftEditor);
    let actions = runtime.editor_finished(EditorCompletion::Draft {
        pane: PaneId::Main,
        updated: Some("better".to_owned()),
    });
    assert!(matches!(
        actions.as_slice(),
        [Action::Tell {
            notice: Notice::EditorDraft { draft, .. },
            ..
        }] if draft == "better"
    ));
    assert!(runtime.input);
}

#[test]
fn frames_of_a_stream_keep_their_distance() {
    let mut scheduler = RenderScheduler::new(STREAM_FRAME_INTERVAL_MS, 0);
    scheduler.presented(0);
    request_render(RenderRequest::Streaming, &mut scheduler, 1);
    assert!(!scheduler.is_due(1));
    assert!(scheduler.is_due(STREAM_FRAME_INTERVAL_MS));
    request_render(RenderRequest::Immediate, &mut scheduler, 2);
    assert!(scheduler.is_due(2));
    scheduler.presented(2);
    assert!(!scheduler.is_due(1_000));
}

#[test]
fn clipboard_pixels_are_encoded_as_png() {
    let encoded = encode_png(1, 1, &[255, 0, 0, 255]).unwrap();

    assert_eq!(&encoded[..8], b"\x89PNG\r\n\x1a\n");
}

#[test]
fn image_urls_hold_the_encoded_file() {
    assert_eq!(data_url(b"copy me"), "data:image/png;base64,Y29weSBtZQ==");
    let url = image_data_url(1, 1, &[255, 0, 0, 255]).unwrap();
    assert!(url.starts_with("data:image/png;base64,iVBORw0KGgo"));
    assert_eq!(
        encode_png(2, 2, &[0; 4]).unwrap_err(),
        ImageError::Encoding
    );
    assert_eq!(
        encode_png(usize::MAX / 4, 1, &[]).unwrap_err(),
        ImageError::LimitsExceeded
    );
    assert!(image_data_url(2, 2, &[0; 4]).is_none());
}

#[test]
fn rejects_an_unknown_database_version() {
    assert_eq!(
        check_version(3).unwrap_err(),
        StorageError::UnsupportedVersion { found: 3 }
    );
    assert!(check_version(2).is_ok());
}

#[test]
fn stored_states_come_back() {
    let state = b"some state, some state, some state, some state, some state".as_slice();
    let frame = compress_state(state).unwrap();
    assert_ne!(frame, state);
    assert_eq!(decompress(&frame).unwrap(), state);
    let record = compress_record(state).unwrap();
    assert_eq!(decompress(&record).unwrap(), state);
    assert_eq!(decompress(b"no frame").unwrap_err(), StorageError::Decode);
}

#[test]
fn times_fit_into_the_database() {
    assert_eq!(to_sql_u64(5), 5);
    assert_eq!(to_sql_u64(u64::MAX), i64::MAX);
    assert_eq!(from_sql_u64(-1), 0);
    assert_eq!(from_sql_u64(7), 7);
    assert_eq!(sql_limit(10), 10);
}

const STARTED: &str = r#"{
    "session_id": "newer",
    "parent_session_id": null,
    "model": "model",
    "effort": "medium",
    "reasoning_mode": "standard",
    "fast_mode": false,
    "workspace": "/work",
    "application_version": "test"
}"#;

#[test]
fn recent_prompts_use_occurrence_time_not_writer_commit_order() {
    for (at, text) in [(200, "newer prompt"), (100, "older prompt")] {
        let record = recorded(
            "tact",
            2,
            at,
            "user.submitted",
            &format!(r#"{{"id": 1, "text": "{text}"}}"#),
        );
        let plan = plan_record(None, &record, vec![1, 2]).unwrap();
        assert!(plan.iter().any(|statement| matches!(
            statement,
            Statement::InsertEvent { prompt: Some(prompt), prompt_at: Some(time), .. }
                if prompt == text && *time == at as i64
        )));
        assert_eq!(prompt_text(&record).unwrap().as_deref(), Some(text));
    }
}

#[test]
fn sessions_are_written_when_they_start() {
    let record = recorded("tact", 1, 199, "session.started", STARTED);
    let started = read_started(&record.payload.value).unwrap();
    assert_eq!(started.effort, ReasoningEffort::Medium);
    assert_eq!(started.parent_session_id, None);

    let plan = plan_record(None, &record, vec![7]).unwrap();
    assert!(matches!(
        plan.first(),
        Some(Statement::UpsertSession { effort, at: 199, .. }) if effort == "\"medium\""
    ));
    let broken = recorded("tact", 1, 199, "session.started", "{}");
    assert_eq!(
        plan_record(None, &broken, Vec::new()).unwrap_err(),
        StorageError::Payload
    );
}

#[test]
fn whole_answers_replace_their_parts() {
    let payload = r#"{"model_call_index": 4, "phase": "final_answer", "text": "x"}"#;
    let part = agent(1, 1, "assistant.delta", payload);
    let whole = agent(2, 2, "assistant.message", payload);
    let stream = r#"[9,4,"final_answer"]"#;
    assert_eq!(
        assistant_stream(Some(9), &part).unwrap().as_deref(),
        Some(stream)
    );
    let plan = plan_record(Some(9), &whole, Vec::new()).unwrap();
    assert!(plan.iter().any(
        |statement| matches!(statement, Statement::DeleteStream { stream: name } if name == stream)
    ));
    assert!(plan_record(Some(9), &part, Vec::new())
        .unwrap()
        .iter()
        .all(|statement| !matches!(statement, Statement::DeleteStream { .. })));
}

fn encoded(record: TranscriptRecord) -> Encoded {
    Encoded {
        record,
        bytes: b"a record, a record, a record".to_vec(),
    }
}

#[test]
fn a_batch_goes_on_with_the_turn_that_it_starts() {
    let accepted = |id: u64| {
        recorded(
            "tact",
            1,
            5,
            "worker.turn_accepted",
            &format!(r#"{{"id": {id}}}"#),
        )
    };
    let payload = r#"{"model_call_index": 4, "phase": "final_answer", "text": "x"}"#;
    let batch = vec![
        encoded(agent(1, 1, "assistant.delta", payload)),
        encoded(accepted(9)),
        encoded(agent(2, 2, "assistant.delta", payload)),
    ];
    let (plan, turn) = plan_records(Some(3), &batch).unwrap();
    assert_eq!(turn, Some(9));
    let streams: Vec<Option<&str>> = plan
        .iter()
        .filter_map(|statement| match statement {
            Statement::InsertEvent {
                assistant_stream,
                record,
                ..
            } => {
                assert_eq!(decompress(record).unwrap(), b"a record, a record, a record");
                Some(assistant_stream.as_deref())
            }
            _ => None,
        })
        .collect();
    assert_eq!(
        streams,
        [
            Some(r#"[3,4,"final_answer"]"#),
            None,
            Some(r#"[9,4,"final_answer"]"#)
        ]
    );

    let (first, turn) = plan_records(Some(3), &batch[..2].iter().map(again).collect()).unwrap();
    let (second, turn) = plan_records(turn, &batch[2..].iter().map(again).collect()).unwrap();
    assert_eq!(turn, Some(9));
    assert_eq!(first.len() + second.len(), plan.len());

    let broken = vec![encoded(recorded("tact", 1, 5, "worker.turn_accepted", "{}"))];
    assert_eq!(
        plan_records(None, &broken).unwrap_err(),
        StorageError::Payload
    );
    let (nothing, turn) = plan_records(Some(7), &Vec::new()).unwrap();
    assert!(nothing.is_empty());
    assert_eq!(turn, Some(7));
}

fn again(one: &Encoded) -> Encoded {
    encoded(recorded(
        &one.record.source,
        one.record.sequence,
        one.record.recorded_at_unix_ms,
        &one.record.kind,
        &one.record.payload.source,
    ))
}

fn field(name: &str, value: Json) -> Field {
    Field {
        name: name.to_owned(),
        value,
    }
}

fn unsigned(value: u64) -> Json {
    document(&value.to_string()).value
}

fn with_fields(source: &str, kind: &str, fields: Vec<Field>) -> TranscriptRecord {
    let mut record = recorded(source, 1, 1, kind, "{}");
    record.payload.value = Json::Object(fields);
    record
}

#[test]
fn structures_that_repeat_a_field_are_refused() {
    let text = |text: &str| field("text", Json::Text(text.to_owned()));
    let other = || field("other", Json::Null);
    let twice = with_fields("tact", "user.submitted", vec![text("a"), text("b")]);
    assert_eq!(prompt_text(&twice).unwrap_err(), StorageError::Payload);
    let once = with_fields("tact", "user.submitted", vec![other(), text("a"), other()]);
    assert_eq!(prompt_text(&once).unwrap().as_deref(), Some("a"));

    let id = |id: u64| field("id", unsigned(id));
    let twice = with_fields("tact", "worker.turn_accepted", vec![id(1), id(1)]);
    assert_eq!(next_turn(None, &twice).unwrap_err(), StorageError::Payload);

    let call = || field("model_call_index", unsigned(4));
    let phase = || field("phase", Json::Null);
    let twice = with_fields("agent", "assistant.delta", vec![call(), phase(), phase()]);
    assert_eq!(
        assistant_stream(None, &twice).unwrap_err(),
        StorageError::Payload
    );
}

#[test]
fn values_keep_the_last_of_the_fields_of_a_name() {
    let value = Json::Object(vec![
        field("a", unsigned(1)),
        field("b", unsigned(2)),
        field("a", unsigned(3)),
    ]);
    assert_eq!(value.get("a").and_then(Json::as_u64), Some(3));
    assert_eq!(value.count_fields(), 2);

    let usage = || {
        Json::Object(vec![
            field("total_tokens", unsigned(1)),
            field("total_tokens", unsigned(2)),
        ])
    };
    assert_eq!(usage_from_value(&usage()).unwrap().total, 2);
    let told = with_fields("agent", "model.call.completed", vec![field("usage", usage())]);
    let mut diagnostics = ContextDiagnostics::rebuild(&Vec::new());
    diagnostics.observe_model_call_completed(&told);
    assert_eq!(diagnostics.usage, None);
}

fn told_failure(actions: &[Action<String, Submission>]) -> String {
    match actions {
        [Action::Tell {
            notice: Notice::NotifyError { pane: PaneId::Main, error },
            apply: false,
        }] => error.clone(),
        _ => panic!("no failure was told: {actions:?}"),
    }
}

fn told_success(actions: &[Action<String, Submission>]) -> String {
    match actions {
        [Action::Tell {
            notice: Notice::NotifySuccess { pane: PaneId::Main, message },
            apply: false,
        }] => message.clone(),
        _ => panic!("no success was told: {actions:?}"),
    }
}

#[test]
fn copies_fall_back_to_the_terminal() {
    let native = |failure: Option<&str>, fallback| {
        let failure = failure.map(str::to_owned);
        native_copy_finished(PaneId::Main, "text".to_owned(), failure, fallback)
    };
    assert_eq!(told_success(&native(None, true)), "Copied selection to clipboard.");
    assert_eq!(
        told_failure(&native(Some("busy"), false)),
        "Could not copy selection: busy"
    );
    let next = native(Some("busy"), true);
    assert!(matches!(
        next.as_slice(),
        [Action::CopyToTerminal { pane: PaneId::Main, text, error }]
            if text == "text" && error == "busy"
    ));
    assert_eq!(
        told_success(&terminal_copy_finished(PaneId::Main, "busy", None)),
        "Sent selection to the terminal clipboard."
    );
    let failure = Some("no tty".to_owned());
    assert_eq!(
        told_failure(&terminal_copy_finished(PaneId::Main, "busy", failure)),
        "Could not copy selection: busy; terminal fallback failed: no tty"
    );
}

#[test]
fn errands_are_reported() {
    assert_eq!(
        told_failure(&link_failed(PaneId::Main, "no browser")),
        "Could not open link: no browser"
    );
    assert_eq!(
        reload_message(false),
        "Reloaded config · theme applied · agent/auth settings apply to new sessions"
    );
    assert_eq!(
        reload_message(true),
        "Reloaded config · theme applied · agent/auth settings apply to new sessions · workspace requires restart"
    );
    assert_eq!(reload_failure("bad key"), "Could not reload config: bad key");
}

#[test]
fn the_program_ends_with_its_session_or_its_failure() {
    let mut runtime = runtime();
    let first = || "first".to_owned();
    assert_eq!(runtime.ending(None, first()), Ok("main".to_owned()));
    runtime.worker_error = Some("worker".to_owned());
    assert_eq!(runtime.ending(None, first()), Err("worker".to_owned()));
    let failure = Some("disk".to_owned());
    assert_eq!(runtime.ending(failure, first()), Err("disk".to_owned()));
    runtime.worker_error = None;
    runtime.panes.clear();
    assert_eq!(runtime.ending(None, first()), Ok("first".to_owned()));
}

#[test]
fn streams_are_named_in_lists_and_without_a_phase() {
    let stream = |payload| assistant_stream(None, &agent(1, 1, "assistant.delta", payload));
    assert_eq!(
        stream(r#"{"model_call_index": 4}"#).unwrap().as_deref(),
        Some("[null,4,null]")
    );
    assert_eq!(
        stream(r#"[4, {"a": [1, 2]}]"#).unwrap().as_deref(),
        Some(r#"[null,4,{"a":[1,2]}]"#)
    );
    assert_eq!(stream("[4]").unwrap_err(), StorageError::Payload);
    assert_eq!(stream("4").unwrap_err(), StorageError::Payload);
    assert_eq!(
        stream(r#"{"model_call_index": 4294967296}"#).unwrap_err(),
        StorageError::Payload
    );
}

#[test]
fn accepted_turns_name_the_stream() {
    let accepted = recorded("tact", 1, 1, "worker.turn_accepted", r#"{"id": 4}"#);
    assert_eq!(next_turn(None, &accepted), Ok(Some(4)));
    let other = recorded("tact", 1, 1, "user.submitted", "{}");
    assert_eq!(next_turn(Some(2), &other), Ok(Some(2)));
    assert_eq!(prompt_text(&other).unwrap_err(), StorageError::Payload);
}

#[test]
fn records_of_other_versions_are_refused() {
    let mut record = recorded("tact", 1, 1, "user.submitted", "{}");
    record.schema_version = SCHEMA_VERSION + 1;
    assert_eq!(
        load_transcript(vec![record]).unwrap_err(),
        StorageError::UnsupportedRecordVersion {
            version: SCHEMA_VERSION + 1
        }
    );
    let kept = load_transcript(vec![recorded("tact", 1, 1, "user.submitted", "{}")]).unwrap();
    assert_eq!(kept.len(), 1);
}

#[test]
fn checkpoints_need_a_known_version() {
    assert_eq!(
        check_checkpoint(None),
        Err(CheckpointError::MissingCheckpoint)
    );
    assert_eq!(
        check_checkpoint(Some(1)),
        Err(CheckpointError::IncompatibleCheckpoint { found: 1 })
    );
    assert_eq!(check_checkpoint(Some(2)), Ok(()));
}

#[test]
fn lists_leave_out_the_active_session() {
    let stored = |id: &str| StoredSession {
        session_id: id.to_owned(),
        started_at_unix_ms: 1,
        model: "model".to_owned(),
        effort: ReasoningEffort::Low,
        reasoning_mode: ReasoningMode::Pro,
        workspace: "/work".to_owned(),
        preview: "p".to_owned(),
    };
    let sessions = other_sessions(list(vec![stored("a"), stored("b")]), "a");
    assert_eq!(sessions.len(), 1);
    assert_eq!(sessions[0].session_id, "b");
    assert_eq!(sessions[0].reasoning_mode, ReasoningMode::Pro);
}

#[test]
fn restored_sessions_keep_their_reasoning_mode() {
    let started = STARTED.replace("standard", "pro");
    let records = vec![recorded("tact", 1, 1, "session.started", &started)];
    assert_eq!(reasoning_mode(&records), ReasoningMode::Pro);
    assert_eq!(reasoning_mode(&Vec::new()), ReasoningMode::Standard);
}
