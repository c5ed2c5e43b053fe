use dyad::buffer::Buffer;
use dyad::lsp::{DocumentSymbol, Position, Range, TextEdit, WorkspaceEdit};
use dyad::mcp::calls::ProtocolState;
use dyad::protocol::{
    apply_text_edits, estimate_tokens, lsp_pos_to_char, parse_inline_task, range_contains,
    scan_inline_tasks, scan_step, ByteRange, CharRange, ScanStep, SOLE_BUFFER_ID,
};
use dyad::runtime::insight::scope_report;
use dyad::runtime::requests::{stage_target, tasks_scan_root};

fn open_state(path: &str) -> ProtocolState {
    ProtocolState::open(path.to_string(), path.to_string(), Ok(None), 7).unwrap()
}

fn scratch_state(name: &str) -> ProtocolState {
    let mut state = open_state(&format!("/tmp/dyad_proto_{name}.rs"));
    let v0 = state.core.buffer_version(SOLE_BUFFER_ID).unwrap();
    state
        .core
        .edit_replace_range(
            SOLE_BUFFER_ID,
            v0,
            CharRange { start: 0, end: 0 },
            "fn hello() {}\n",
        )
        .unwrap();
    state
}

fn text_of(state: &ProtocolState, id: u64) -> String {
    state.core.buffer_read(id, None).unwrap().text
}

fn open_another(state: &mut ProtocolState, path: &str) -> u64 {
    state.core.buffer_open(path.to_string(), path.to_string(), Ok(None)).unwrap()
}

#[test]
fn buffer_list_reports_the_sole_buffer() {
    let state = scratch_state("list");
    let list = state.core.buffer_list();
    assert_eq!(list.len(), 1);
    assert_eq!(list[0].id, SOLE_BUFFER_ID);
    assert!(list[0].dirty);
}

#[test]
fn buffer_read_returns_full_or_partial_text() {
    let state = scratch_state("read");
    let full = state.core.buffer_read(SOLE_BUFFER_ID, None).unwrap();
    assert_eq!(full.text, "fn hello() {}\n");
    let part = state
        .core
        .buffer_read(SOLE_BUFFER_ID, Some(CharRange { start: 3, end: 8 }))
        .unwrap();
    assert_eq!(part.text, "hello");
}

#[test]
fn edit_replace_range_requires_matching_version() {
    let mut state = scratch_state("version_check");
    let stale = state.core.buffer_version(SOLE_BUFFER_ID).unwrap() + 1;
    let err = state
        .core
        .edit_replace_range(SOLE_BUFFER_ID, stale, CharRange { start: 0, end: 0 }, "x")
        .unwrap_err();
    assert!(err.message().contains("version mismatch"));
    assert_eq!(text_of(&state, SOLE_BUFFER_ID), "fn hello() {}\n");
}

#[test]
fn ast_query_returns_function_names() {
    let state = scratch_state("ast_query");
    let matches = state
        .core
        .ast_query(SOLE_BUFFER_ID, "(function_item name: (identifier) @name)")
        .unwrap();
    let names: Vec<&str> = matches
        .iter()
        .filter(|m| m.capture == "name")
        .map(|m| m.kind.as_str())
        .collect();
    assert!(!names.is_empty(), "expected at least one name match");
}

#[test]
fn edit_replace_node_via_protocol_renames_function() {
    let mut state = scratch_state("replace_node");
    let matches = state
        .core
        .ast_query(SOLE_BUFFER_ID, "(function_item name: (identifier) @name)")
        .unwrap();
    let target = matches.into_iter().find(|m| m.capture == "name").unwrap();
    let v = state.core.buffer_version(SOLE_BUFFER_ID).unwrap();
    state
        .core
        .edit_replace_node(
            SOLE_BUFFER_ID,
            v,
            ByteRange {
                start: target.byte_start,
                end: target.byte_end,
            },
            "farewell",
        )
        .unwrap();
    assert_eq!(text_of(&state, SOLE_BUFFER_ID), "fn farewell() {}\n");
}

#[test]
fn explicit_tx_commit_creates_one_history_entry_for_two_edits() {
    let mut state = scratch_state("explicit_tx");
    let tx_id = state
        .core
        .tx_begin(SOLE_BUFFER_ID, "multi-edit refactor".to_string(), None)
        .unwrap();
    let v1 = state.core.buffer_version(SOLE_BUFFER_ID).unwrap();
    state
        .core
        .edit_replace_range(SOLE_BUFFER_ID, v1, CharRange { start: 0, end: 0 }, "// intro\n")
        .unwrap();
    let v2 = state.core.buffer_version(SOLE_BUFFER_ID).unwrap();
    let end = text_of(&state, SOLE_BUFFER_ID).chars().count();
    state
        .core
        .edit_replace_range(SOLE_BUFFER_ID, v2, CharRange { start: end, end }, "// outro\n")
        .unwrap();
    let change_id = state.core.tx_commit(tx_id).unwrap();
    let history = state.core.history_recent(10);
    assert_eq!(history.len(), 2);
    assert_eq!(history[1].change_id, change_id);
    assert_eq!(history[1].intent, "multi-edit refactor");
}

fn edit(line: u32, start: u32, end: u32, text: &str) -> TextEdit {
    TextEdit {
        range: Range {
            start: Position { line, character: start },
            end: Position { line, character: end },
        },
        new_text: text.to_string(),
    }
}

#[test]
fn apply_text_edits_rewrites_multiple_ranges_end_to_start() {
    let mut buf = Buffer::open("/tmp/dyad_apply_edits.rs".to_string(), None);
    buf.insert_str(0, "fn old() { let old = 1; }\n");
    let edits = vec![edit(0, 15, 18, "fresh"), edit(0, 3, 6, "fresh")];
    apply_text_edits(&mut buf, &edits).unwrap();
    assert_eq!(buf.rope().to_string(), "fn fresh() { let fresh = 1; }\n");
}

#[test]
fn lsp_pos_to_char_maps_line_and_column() {
    let mut buf = Buffer::open("/tmp/dyad_lsp_pos.rs".to_string(), None);
    buf.insert_str(0, "ab\ncde\n");
    assert_eq!(lsp_pos_to_char(&buf, 0, 1).unwrap(), 1);
    assert_eq!(lsp_pos_to_char(&buf, 1, 2).unwrap(), 5);
    assert!(lsp_pos_to_char(&buf, 9, 0).is_err());
    assert!(lsp_pos_to_char(&buf, 0, 9).is_err());
}

#[test]
fn tx_rollback_restores_buffer_and_invalidates_syntax() {
    let mut state = scratch_state("rollback");
    let pre_text = text_of(&state, SOLE_BUFFER_ID);
    let tx_id = state
        .core
        .tx_begin(SOLE_BUFFER_ID, "doomed".to_string(), None)
        .unwrap();
    let v = state.core.buffer_version(SOLE_BUFFER_ID).unwrap();
    state
        .core
        .edit_replace_range(SOLE_BUFFER_ID, v, CharRange { start: 0, end: 0 }, "garbage ")
        .unwrap();
    state.core.tx_rollback(tx_id).unwrap();
    assert_eq!(text_of(&state, SOLE_BUFFER_ID), pre_text);
    let matches = state
        .core
        .ast_query(SOLE_BUFFER_ID, "(function_item name: (identifier) @name)")
        .unwrap();
    assert!(matches.iter().any(|m| m.capture == "name"));
}

#[test]
fn transactions_are_opened_and_ended_one_at_a_time() {
    let mut state = scratch_state("one_tx");
    let tx = state.core.tx_begin(SOLE_BUFFER_ID, "a".to_string(), None).unwrap();
    assert!(state.core.tx_begin(SOLE_BUFFER_ID, "b".to_string(), None).is_err());
    state.core.tx_commit(tx).unwrap();
    assert!(state.core.tx_commit(tx).is_err());
    assert!(state.core.tx_rollback(tx).is_err());
    assert!(state.core.tx_begin(99, "c".to_string(), None).is_err());
}

#[test]
fn buffer_open_returns_ascending_ids_and_list_reflects_them() {
    let mut state = scratch_state("multi_open");
    let id_b = open_another(&mut state, "/tmp/dyad_proto_multi_open_b.rs");
    let id_c = open_another(&mut state, "/tmp/dyad_proto_multi_open_c.rs");
    assert_eq!(id_b, 2);
    assert_eq!(id_c, 3);
    let ids: Vec<u64> = state.core.buffer_list().iter().map(|e| e.id).collect();
    assert_eq!(ids, vec![1, 2, 3]);
    assert_eq!(state.core.focus(), Some(id_c));
}

#[test]
fn buffer_close_removes_entry_and_shifts_focus() {
    let mut state = scratch_state("multi_close");
    let id_b = open_another(&mut state, "/tmp/dyad_proto_multi_close_b.rs");
    assert_eq!(state.core.focus(), Some(id_b));

    state.core.buffer_close(id_b).unwrap();
    assert_eq!(state.core.focus(), Some(SOLE_BUFFER_ID));
    assert_eq!(state.core.buffer_list().len(), 1);

    state.core.buffer_close(SOLE_BUFFER_ID).unwrap();
    assert_eq!(state.core.focus(), None);
    assert!(state.core.buffer_list().is_empty());
}

#[test]
fn clients_list_returns_the_mcp_session() {
    let state = scratch_state("clients");
    let clients = state.clients_list();
    assert_eq!(clients.len(), 1);
    assert_eq!(clients[0].kind, "agent");
    assert_eq!(clients[0].focus, Some(SOLE_BUFFER_ID));
}

#[test]
fn proposal_accept_applies_the_edit_and_carries_intent_into_history() {
    let mut state = scratch_state("propose_accept");
    let v = state.core.buffer_version(SOLE_BUFFER_ID).unwrap();
    let id = state
        .core
        .propose_replace_range(
            SOLE_BUFFER_ID,
            v,
            CharRange { start: 3, end: 8 },
            "farewell".to_string(),
            "rename hello -> farewell".to_string(),
        )
        .unwrap();
    assert_eq!(state.core.proposals_list().len(), 1);

    state.core.proposal_accept(id).unwrap();
    assert_eq!(text_of(&state, SOLE_BUFFER_ID), "fn farewell() {}\n");
    assert!(state.core.proposals_list().is_empty());

    let history = state.core.history_recent(10);
    let last = history.last().unwrap();
    assert_eq!(last.intent, "rename hello -> farewell");
}

#[test]
fn proposal_reject_discards_without_applying() {
    let mut state = scratch_state("propose_reject");
    let pre = text_of(&state, SOLE_BUFFER_ID);
    let v = state.core.buffer_version(SOLE_BUFFER_ID).unwrap();
    let id = state
        .core
        .propose_replace_range(
            SOLE_BUFFER_ID,
            v,
            CharRange { start: 0, end: 0 },
            "// proposed\n".to_string(),
            "add a doc comment".to_string(),
        )
        .unwrap();
    state.core.proposal_reject(id).unwrap();
    assert_eq!(text_of(&state, SOLE_BUFFER_ID), pre);
    assert!(state.core.proposals_list().is_empty());
    assert!(state.core.proposal_reject(id).is_err());
    assert!(state.core.proposal_accept(id).is_err());
}

#[test]
fn proposal_accept_on_stale_version_errors_and_requeues() {
    let mut state = scratch_state("propose_stale");
    let stale = state.core.buffer_version(SOLE_BUFFER_ID).unwrap();
    let id = state
        .core
        .propose_replace_range(
            SOLE_BUFFER_ID,
            stale,
            CharRange { start: 0, end: 0 },
            "x".to_string(),
            "stale insert".to_string(),
        )
        .unwrap();
    let v_now = state.core.buffer_version(SOLE_BUFFER_ID).unwrap();
    state
        .core
        .edit_replace_range(SOLE_BUFFER_ID, v_now, CharRange { start: 0, end: 0 }, "y")
        .unwrap();

    let err = state.core.proposal_accept(id).unwrap_err();
    assert!(err.message().contains("version mismatch"));
    let still_queued = state.core.proposals_list();
    assert_eq!(still_queued.len(), 1);
    assert_ne!(still_queued[0].id, id);
}

#[test]
fn scope_imports_lists_use_declarations() {
    let mut state = scratch_state("scope_imports");
    let v = state.core.buffer_version(SOLE_BUFFER_ID).unwrap();
    let len = text_of(&state, SOLE_BUFFER_ID).chars().count();
    state
        .core
        .edit_replace_range(
            SOLE_BUFFER_ID,
            v,
            CharRange { start: 0, end: len },
            "use std::fmt;\nuse std::io::Read;\nfn main() {}\n",
        )
        .unwrap();
    let imports = state.core.scope_imports(SOLE_BUFFER_ID).unwrap();
    assert_eq!(imports.len(), 2);
    assert_eq!(imports[0].text, "use std::fmt;");
    assert_eq!(imports[0].line, 0);
    assert_eq!(imports[1].text, "use std::io::Read;");
    assert_eq!(imports[1].line, 1);
}

#[test]
fn scope_imports_errors_for_unrecognized_language() {
    let state = open_state("/tmp/dyad_scope_unknown.txt");
    let err = state.core.scope_imports(SOLE_BUFFER_ID).unwrap_err();
    assert!(
        err.message().contains("recognized language"),
        "unexpected error: {}",
        err.message(),
    );
}

#[test]
fn range_contains_is_inclusive_and_line_aware() {
    let r = Range {
        start: Position { line: 1, character: 4 },
        end: Position { line: 3, character: 2 },
    };
    assert!(range_contains(&r, 2, 0));
    assert!(range_contains(&r, 1, 4));
    assert!(!range_contains(&r, 1, 3));
    assert!(range_contains(&r, 3, 2));
    assert!(!range_contains(&r, 3, 3));
    assert!(!range_contains(&r, 0, 9));
    assert!(!range_contains(&r, 4, 0));
}

fn symbol(name: &str, from: u32, to: u32, children: Vec<DocumentSymbol>) -> DocumentSymbol {
    DocumentSymbol {
        name: name.to_string(),
        kind: 12,
        range: Range {
            start: Position { line: from, character: 0 },
            end: Position { line: to, character: 99 },
        },
        children,
    }
}

#[test]
fn scope_reports_enclosing_symbols_and_siblings() {
    let symbols = vec![
        symbol("a", 0, 1, vec![]),
        symbol("b", 2, 9, vec![symbol("inner", 3, 5, vec![])]),
    ];
    let report = scope_report(vec![], &symbols, 4, 0);
    let enclosing: Vec<&str> = report.enclosing.iter().map(|s| s.name.as_str()).collect();
    let siblings: Vec<&str> = report.siblings.iter().map(|s| s.name.as_str()).collect();
    assert_eq!(enclosing, vec!["b", "inner"]);
    assert_eq!(siblings, vec!["a"]);
}

fn rust_state_with(name: &str, src: &str) -> ProtocolState {
    let mut state = scratch_state(name);
    let v = state.core.buffer_version(SOLE_BUFFER_ID).unwrap();
    let len = text_of(&state, SOLE_BUFFER_ID).chars().count();
    state
        .core
        .edit_replace_range(SOLE_BUFFER_ID, v, CharRange { start: 0, end: len }, src)
        .unwrap();
    state
}

const PACK_FIXTURE: &str = "\
use std::fmt;
use std::io::Read;

struct Helper;

fn target() {
    let x = 1;
    let y = 2;
}

fn neighbor() {}
";

#[test]
fn context_pack_anchors_on_enclosing_function_first() {
    let state = rust_state_with("pack_anchor", PACK_FIXTURE);
    let packed = state.core.context_pack(SOLE_BUFFER_ID, 6, 8, 1000).unwrap();
    assert!(!packed.truncated, "1000 tokens easily fits this fixture");
    assert!(packed.anchor.is_some());
    assert_eq!(packed.slices[0].reason, "anchor: enclosing function");
    assert!(packed.slices[0].text.contains("fn target()"));
    assert!(packed.slices[0].text.contains("let y = 2;"));

    let reasons: Vec<&str> = packed.slices.iter().map(|s| s.reason.as_str()).collect();
    assert_eq!(reasons.iter().filter(|r| **r == "import").count(), 2);
    let sib_text: Vec<&str> = packed
        .slices
        .iter()
        .filter(|s| s.reason == "sibling signature")
        .map(|s| s.text.as_str())
        .collect();
    assert!(sib_text.iter().any(|t| t.contains("struct Helper")));
    assert!(sib_text.iter().any(|t| t.contains("fn neighbor()")));
    assert!(sib_text.iter().all(|t| !t.contains('\n')));
    let summed: usize = packed.slices.iter().map(|s| s.estimated_tokens).sum();
    assert_eq!(packed.estimated_tokens, summed);
}

#[test]
fn context_pack_flags_truncation_on_a_tiny_budget() {
    let state = rust_state_with("pack_trunc", PACK_FIXTURE);
    let packed = state.core.context_pack(SOLE_BUFFER_ID, 6, 8, 1).unwrap();
    assert!(packed.truncated);
    assert_eq!(packed.slices.len(), 1);
    assert_eq!(packed.slices[0].reason, "anchor: enclosing function");
}

#[test]
fn context_pack_without_enclosing_function_packs_imports() {
    let state = rust_state_with("pack_toplevel", PACK_FIXTURE);
    let packed = state.core.context_pack(SOLE_BUFFER_ID, 0, 0, 1000).unwrap();
    assert!(packed.anchor.is_none());
    assert!(!packed.slices.is_empty());
    assert_eq!(packed.slices[0].reason, "import");
}

#[test]
fn estimate_tokens_is_chars_over_four_rounded_up() {
    assert_eq!(estimate_tokens(""), 0);
    assert_eq!(estimate_tokens("abc"), 1);
    assert_eq!(estimate_tokens("abcd"), 1);
    assert_eq!(estimate_tokens("abcde"), 2);
}

#[test]
fn diag_wait_until_idle_errors_for_buffer_without_lsp() {
    let state = open_state("/tmp/dyad_diag_wait.txt");
    let err = state.core.diag_wait_until_idle(SOLE_BUFFER_ID, 50).unwrap_err();
    let msg = err.message();
    assert!(
        msg.contains("recognized language")
            || msg.contains("not running")
            || msg.contains("no recognized"),
        "unexpected error: {msg}",
    );
    let rust = scratch_state("no_server");
    let msg = rust.core.diag_current(SOLE_BUFFER_ID).unwrap_err().message();
    assert!(msg.contains("rust-analyzer not running"), "unexpected error: {msg}");
}

#[test]
fn test_last_results_empty_until_a_run_happens() {
    let state = scratch_state("test_cache");
    assert!(state.core.test_last_results().is_none());
}

#[test]
fn test_results_are_kept_once_a_run_is_over() {
    let mut state = scratch_state("test_kept");
    let request = state.core.test_run(SOLE_BUFFER_ID, Some("adds")).unwrap();
    assert_eq!(request.argv, vec!["cargo", "test", "--color", "never", "--", "adds"]);
    let results = dyad::test_runner::finish_run(request.kind, "", "", true);
    state.core.test_finished(&results);
    assert!(state.core.test_last_results().unwrap().exit_ok);
}

#[test]
fn test_run_errors_for_unrecognized_language() {
    let state = open_state("/tmp/dyad_test_run_unknown.txt");
    let err = state.core.test_run(SOLE_BUFFER_ID, None).unwrap_err();
    assert!(
        err.message().contains("language is unknown"),
        "unexpected error: {}",
        err.message(),
    );
}

fn task(kind: &str, text: &str) -> Option<(String, String)> {
    Some((kind.to_string(), text.to_string()))
}

#[test]
fn inline_tasks_are_found_by_the_name_of_their_reader() {
    assert_eq!(
        parse_inline_task("otto", "// OTTO: rename this to Foo"),
        task("otto", "rename this to Foo"),
    );
    assert_eq!(
        parse_inline_task("Otto", "# otto: drop the prefix"),
        task("otto", "drop the prefix"),
    );
    assert_eq!(
        parse_inline_task("otto", "// TODO(otto): refactor"),
        task("todo", "refactor"),
    );
    assert_eq!(
        parse_inline_task("otto", "/* todo(Otto) plain body */"),
        task("todo", "plain body */"),
    );
    assert_eq!(parse_inline_task("otto", "nothing here"), None);
    assert_eq!(parse_inline_task("otto", "// ANNA: not for otto"), None);
    assert_eq!(
        parse_inline_task("otto", "// TODO(otto): mention otto: in body"),
        task("todo", "mention otto: in body"),
    );
}

#[test]
fn scans_find_markers_recursively_and_sort_results() {
    let disk = [
        ("nested/b.rs", "// TODO(otto): refactor this\nfn x() {}\n"),
        ("target/skipme.rs", "// OTTO: ignored"),
        ("a.rs", "fn a() {}\n// OTTO: rename a -> b\nfn b() {}\n"),
        (".hidden", "// OTTO: also ignored"),
    ];
    let mut files: Vec<(String, String)> = Vec::new();
    for (path, contents) in disk {
        let names: Vec<&str> = path.split('/').collect();
        let mut read = true;
        for (i, name) in names.iter().enumerate() {
            let last = i + 1 == names.len();
            let step = scan_step(name, !last, last, contents.len() as u64);
            let wanted = if last { ScanStep::Read } else { ScanStep::Descend };
            read = read && step == wanted;
        }
        if read {
            files.push((path.to_string(), contents.to_string()));
        }
    }
    let hits = scan_inline_tasks("otto", &files);
    let labels: Vec<(String, usize, String)> = hits
        .into_iter()
        .map(|h| (h.path, h.line, h.kind))
        .collect();
    assert_eq!(
        labels,
        vec![
            ("a.rs".to_string(), 1, "otto".to_string()),
            ("nested/b.rs".to_string(), 0, "todo".to_string()),
        ]
    );
}

#[test]
fn proposals_accept_all_drains_queue_and_applies_in_id_order() {
    let mut state = scratch_state("accept_all");
    let v0 = state.core.buffer_version(SOLE_BUFFER_ID).unwrap();
    let _p1 = state
        .core
        .propose_replace_range(
            SOLE_BUFFER_ID,
            v0,
            CharRange { start: 0, end: 0 },
            "// first\n".to_string(),
            "first".to_string(),
        )
        .unwrap();
    let _p2 = state
        .core
        .propose_replace_range(
            SOLE_BUFFER_ID,
            v0 + 999,
            CharRange { start: 0, end: 0 },
            "// second\n".to_string(),
            "second".to_string(),
        )
        .unwrap();

    let result = state.core.proposals_accept_all();
    assert_eq!(result.accepted, 1);
    assert_eq!(result.errors.len(), 1);
    assert!(result.errors[0].message.contains("version mismatch"));
    let remaining = state.core.proposals_list();
    assert_eq!(remaining.len(), 1);
    assert_eq!(remaining[0].intent, "second");
    assert!(text_of(&state, SOLE_BUFFER_ID).starts_with("// first\n"));
}

#[test]
fn proposals_reject_all_drains_queue_without_applying() {
    let mut state = scratch_state("reject_all");
    let pre = text_of(&state, SOLE_BUFFER_ID);
    let v = state.core.buffer_version(SOLE_BUFFER_ID).unwrap();
    for i in 0..3 {
        state
            .core
            .propose_replace_range(
                SOLE_BUFFER_ID,
                v,
                CharRange { start: 0, end: 0 },
                format!("// {i}\n"),
                format!("noise {i}"),
            )
            .unwrap();
    }
    assert_eq!(state.core.proposals_count(), 3);
    let dropped = state.core.proposals_reject_all();
    assert_eq!(dropped, 3);
    assert_eq!(state.core.proposals_count(), 0);
    assert_eq!(text_of(&state, SOLE_BUFFER_ID), pre);
}

#[test]
fn edits_are_isolated_per_buffer() {
    let mut state = scratch_state("isolated");
    let id_b = open_another(&mut state, "/tmp/dyad_proto_isolated_b.rs");
    let v_b = state.core.buffer_version(id_b).unwrap();
    state
        .core
        .edit_replace_range(id_b, v_b, CharRange { start: 0, end: 0 }, "fn other() {}\n")
        .unwrap();
    assert_eq!(text_of(&state, SOLE_BUFFER_ID), "fn hello() {}\n");
    assert_eq!(text_of(&state, id_b), "fn other() {}\n");
}

#[test]
fn renames_touch_the_open_buffers_only() {
    let mut state = scratch_state("rename");
    let there = "file:///tmp/dyad_proto_rename.rs".to_string();
    let edits = WorkspaceEdit {
        changes: vec![
            (there, vec![edit(0, 3, 8, "moved")]),
            ("file:///tmp/not_open.rs".to_string(), vec![edit(0, 0, 0, "x")]),
        ],
    };
    let result = state.core.apply_rename("moved", &edits).unwrap();
    assert_eq!(text_of(&state, SOLE_BUFFER_ID), "fn moved() {}\n");
    assert_eq!(result.skipped_files.len(), 1);
}

#[test]
fn repository_paths_are_relative() {
    assert_eq!(stage_target("/r/src/a.rs", "/r", None), "src/a.rs");
    assert_eq!(stage_target("/r/src/a.rs", "/r", Some("b.rs")), "b.rs");
    assert_eq!(tasks_scan_root("/r/src/a.rs", Some("/r")), "/r");
    assert_eq!(tasks_scan_root("/r/src/a.rs", None), "/r/src");
}

#[test]
fn symbols_of_a_document_need_a_server() {
    let mut state = scratch_state("symbols");
    assert!(state.core.document_symbols(SOLE_BUFFER_ID).is_err());
    state.core.server_started(dyad::language::Language::Rust);
    assert!(matches!(
        state.core.document_symbols(SOLE_BUFFER_ID),
        Ok(dyad::runtime::requests::ServerRequest::DocumentSymbols { .. })
    ));
}

#[test]
fn a_rename_that_fails_midway_leaves_the_syntax_behind_the_text() {
    let names = "(function_item name: (identifier) @name)";
    let mut state = scratch_state("stale");
    let other = open_another(&mut state, "/tmp/dyad_proto_stale_b.rs");
    let edits = WorkspaceEdit {
        changes: vec![
            ("file:///tmp/dyad_proto_stale.rs".to_string(), vec![edit(0, 3, 8, "renamed")]),
            ("file:///tmp/dyad_proto_stale_b.rs".to_string(), vec![edit(99, 0, 0, "x")]),
        ],
    };
    assert!(state.core.apply_rename("renamed", &edits).is_err());
    assert_eq!(text_of(&state, SOLE_BUFFER_ID), "fn renamed() {}\n");
    assert_eq!(text_of(&state, other), "");
    let found = state.core.ast_query(SOLE_BUFFER_ID, names).unwrap();
    assert_eq!((found[0].byte_start, found[0].byte_end), (3, 8));
    let v = state.core.buffer_version(SOLE_BUFFER_ID).unwrap();
    state
        .core
        .edit_replace_range(SOLE_BUFFER_ID, v, CharRange { start: 0, end: 0 }, "\n")
        .unwrap();
    let found = state.core.ast_query(SOLE_BUFFER_ID, names).unwrap();
    assert_eq!((found[0].byte_start, found[0].byte_end), (4, 11));
}

#[test]
fn captures_that_reach_beyond_a_shortened_text_are_cut_to_it() {
    let mut state = rust_state_with("short", "fn a() {}\nuse std::fmt;\n");
    let tx = state.core.tx_begin(SOLE_BUFFER_ID, "rename".to_string(), None).unwrap();
    let uri = "file:///tmp/dyad_proto_short.rs".to_string();
    let edits = WorkspaceEdit {
        changes: vec![
            (uri.clone(), vec![edit(1, 0, 13, "u")]),
            (uri, vec![edit(99, 0, 0, "x")]),
        ],
    };
    assert!(state.core.apply_rename("u", &edits).is_err());
    assert_eq!(text_of(&state, SOLE_BUFFER_ID), "fn a() {}\nu\n");
    let imports = state.core.scope_imports(SOLE_BUFFER_ID).unwrap();
    assert_eq!(imports[0].text, "u\n");
    state.core.tx_rollback(tx).unwrap();
    let imports = state.core.scope_imports(SOLE_BUFFER_ID).unwrap();
    assert_eq!((imports[0].text.as_str(), imports[0].line), ("use std::fmt;", 1));
}

#[test]
fn what_is_in_scope_is_asked_for_after_the_imports() {
    let mut state = scratch_state("in_scope");
    assert!(state.core.scope_in_scope(SOLE_BUFFER_ID).is_err());
    state.core.server_started(dyad::language::Language::Rust);
    assert!(matches!(
        state.core.scope_in_scope(SOLE_BUFFER_ID),
        Ok(dyad::runtime::requests::ServerRequest::DocumentSymbols { .. })
    ));
    let plain = open_state("/tmp/dyad_proto_in_scope.txt");
    assert!(plain.core.scope_in_scope(SOLE_BUFFER_ID).is_err());
}
