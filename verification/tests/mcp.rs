use dyad::language::Language;
use dyad::lsp::{DocumentSymbol, Position, Range};
use dyad::mcp::calls::{Answer, Effect, ProtocolState};
use dyad::mcp::tools::{all_tools, find_tool};
use dyad::mcp::{finish_call, handle_line, PendingCall, Step};
use dyad::protocol::{CharRange, SOLE_BUFFER_ID};
use dyad::runtime::requests::ServerRequest;
use serde_json::Value;

fn fresh_state(name: &str) -> ProtocolState {
    let path = format!("/tmp/dyad_mcp_{name}.rs");
    ProtocolState::open(path.clone(), path, Ok(None), 7).unwrap()
}

fn request(method: &str, params: &str, id: u64) -> String {
    format!(r#"{{"jsonrpc":"2.0","id":{id},"method":"{method}","params":{params}}}"#)
}

fn reply_of(state: &mut ProtocolState, line: &str) -> Option<String> {
    match handle_line(state, line) {
        Step::Reply(r) => r,
        Step::Ask(_, _) => panic!("the message asks for something outside"),
    }
}

fn call_tool(state: &mut ProtocolState, name: &str, args: &str, id: u64) -> Value {
    let params = format!(r#"{{"name":"{name}","arguments":{args}}}"#);
    let line = request("tools/call", &params, id);
    let response = reply_of(state, &line).expect("tools/call must reply");
    serde_json::from_str(&response).unwrap()
}

fn payload(resp: &Value) -> Value {
    serde_json::from_str(resp["result"]["content"][0]["text"].as_str().unwrap()).unwrap()
}

#[test]
fn initialize_responds_with_server_info() {
    let mut state = fresh_state("initialize");
    let response = reply_of(&mut state, &request("initialize", "{}", 1)).unwrap();
    let v: Value = serde_json::from_str(&response).unwrap();
    assert_eq!(v["id"], 1);
    assert_eq!(v["result"]["serverInfo"]["name"], "dyad");
    assert!(v["result"]["capabilities"]["tools"].is_object());
}

#[test]
fn mcp_initialized_notification_returns_no_response() {
    let mut state = fresh_state("initialized");
    let notification = r#"{"jsonrpc":"2.0","method":"notifications/initialized"}"#;
    assert!(reply_of(&mut state, notification).is_none());
}

#[test]
fn tools_list_includes_each_protocol_verb() {
    let mut state = fresh_state("tools_list");
    let response = reply_of(&mut state, &request("tools/list", "{}", 2)).unwrap();
    let v: Value = serde_json::from_str(&response).unwrap();
    let names: Vec<&str> = v["result"]["tools"]
        .as_array()
        .unwrap()
        .iter()
        .map(|t| t["name"].as_str().unwrap())
        .collect();
    for expected in [
        "buffer.list",
        "buffer.read",
        "buffer.version",
        "ast.query",
        "edit.replace_range",
        "edit.replace_node",
        "tx.begin",
        "tx.commit",
        "tx.rollback",
        "history.recent",
        "symbol.definition",
        "symbol.references",
        "symbol.hover",
        "symbol.workspace_search",
        "diag.current",
        "edit.rename_symbol",
        "buffer.open",
        "buffer.close",
        "clients.list",
        "git.diff",
        "git.status",
        "git.log",
        "git.show",
        "git.stage",
        "git.unstage",
        "git.commit",
        "edit.propose_range",
        "proposals.list",
        "proposals.accept",
        "proposals.reject",
        "proposals.count",
    ] {
        assert!(names.contains(&expected), "missing tool {expected}");
    }
}

#[test]
fn unknown_method_yields_minus_32601() {
    let mut state = fresh_state("unknown");
    let response = reply_of(&mut state, &request("does/not/exist", "{}", 3)).unwrap();
    let v: Value = serde_json::from_str(&response).unwrap();
    assert_eq!(v["error"]["code"], -32601);
}

#[test]
fn parse_error_yields_minus_32700() {
    let mut state = fresh_state("parse_err");
    let response = reply_of(&mut state, "{this is not json").unwrap();
    let v: Value = serde_json::from_str(&response).unwrap();
    assert_eq!(v["error"]["code"], -32700);
}

#[test]
fn end_to_end_buffer_read_round_trip() {
    let mut state = fresh_state("buffer_read");
    let v0 = state.core.buffer_version(SOLE_BUFFER_ID).unwrap();
    state
        .core
        .edit_replace_range(SOLE_BUFFER_ID, v0, CharRange { start: 0, end: 0 }, "hello world")
        .unwrap();
    let response = call_tool(&mut state, "buffer.read", r#"{"buffer_id":1}"#, 42);
    assert_eq!(payload(&response)["text"], "hello world");
    assert_eq!(response["result"]["isError"], false);
}

#[test]
fn end_to_end_edit_then_history() {
    let mut state = fresh_state("edit_history");
    let v0 = state.core.buffer_version(SOLE_BUFFER_ID).unwrap();
    let args = format!(
        r#"{{"buffer_id":1,"version":{v0},"range":{{"start":0,"end":0}},"text":"hi"}}"#
    );
    let edit_resp = call_tool(&mut state, "edit.replace_range", &args, 10);
    assert_eq!(edit_resp["result"]["isError"], false);

    let hist_resp = call_tool(&mut state, "history.recent", r#"{"limit":10}"#, 11);
    let history = payload(&hist_resp);
    let entries = history.as_array().unwrap();
    assert_eq!(entries.len(), 1);
    assert!(entries[0]["intent"]
        .as_str()
        .unwrap()
        .contains("edit.replace_range"));
}

#[test]
fn buffer_version_tool_returns_current_version_after_edit() {
    let mut state = fresh_state("buffer_version_tool");
    let v_pre = state.core.buffer_version(SOLE_BUFFER_ID).unwrap();
    state
        .core
        .edit_replace_range(SOLE_BUFFER_ID, v_pre, CharRange { start: 0, end: 0 }, "hi")
        .unwrap();
    let resp = call_tool(&mut state, "buffer.version", r#"{"buffer_id":1}"#, 21);
    assert_eq!(resp["result"]["isError"], false);
    let payload = payload(&resp);
    assert_eq!(
        payload["version"],
        state.core.buffer_version(SOLE_BUFFER_ID).unwrap()
    );
    assert!(payload["version"].as_u64().unwrap() > v_pre);
}

#[test]
fn proposals_count_tool_reflects_queue_size() {
    let mut state = fresh_state("proposals_count_tool");
    let empty = call_tool(&mut state, "proposals.count", "{}", 30);
    assert_eq!(payload(&empty)["count"], 0);

    let v = state.core.buffer_version(SOLE_BUFFER_ID).unwrap();
    state
        .core
        .propose_replace_range(
            SOLE_BUFFER_ID,
            v,
            CharRange { start: 0, end: 0 },
            "x".to_string(),
            "test".to_string(),
        )
        .unwrap();
    let one = call_tool(&mut state, "proposals.count", "{}", 31);
    assert_eq!(payload(&one)["count"], 1);
}

#[test]
fn version_mismatch_returns_is_error_true() {
    let mut state = fresh_state("version_err");
    let bad = state.core.buffer_version(SOLE_BUFFER_ID).unwrap() + 99;
    let args = format!(
        r#"{{"buffer_id":1,"version":{bad},"range":{{"start":0,"end":0}},"text":"x"}}"#
    );
    let resp = call_tool(&mut state, "edit.replace_range", &args, 7);
    assert_eq!(resp["result"]["isError"], true);
    assert!(resp["result"]["content"][0]["text"]
        .as_str()
        .unwrap()
        .contains("version mismatch"));
}

#[test]
fn tool_arguments_are_held_to_their_types() {
    let mut state = fresh_state("args");
    let missing = call_tool(&mut state, "buffer.read", "{}", 1);
    assert_eq!(missing["result"]["isError"], true);
    assert_eq!(
        missing["result"]["content"][0]["text"],
        "missing field `buffer_id`"
    );
    let wrong = call_tool(&mut state, "buffer.read", r#"{"buffer_id":"one"}"#, 2);
    assert_eq!(
        wrong["result"]["content"][0]["text"],
        "invalid type: string \"one\", expected u64"
    );
    let negative = call_tool(&mut state, "buffer.read", r#"{"buffer_id":-1}"#, 3);
    assert_eq!(
        negative["result"]["content"][0]["text"],
        "invalid value: integer `-1`, expected u64"
    );
    let list = call_tool(&mut state, "buffer.list", "7", 4);
    assert_eq!(list["result"]["isError"], false);
    let unknown = call_tool(&mut state, "no.such", "{}", 5);
    assert_eq!(unknown["result"]["content"][0]["text"], "unknown tool: no.such");
}

#[test]
fn a_call_that_asks_outside_is_finished_with_the_answer() {
    let mut state = fresh_state("ask");
    let params = r#"{"name":"git.diff","arguments":{"buffer_id":1}}"#;
    match handle_line(&mut state, &request("tools/call", params, 9)) {
        Step::Ask(Effect::Diff { file }, call) => {
            assert_eq!(file, "/tmp/dyad_mcp_ask.rs");
            let reply = finish_call(&mut state, call, Answer::Text("@@".to_string())).unwrap();
            let v: Value = serde_json::from_str(&reply).unwrap();
            assert_eq!(v["id"], 9);
            assert_eq!(payload(&v)["diff"], "@@");
        }
        _ => panic!("git.diff asks for a diff"),
    }
    match handle_line(&mut state, &request("tools/call", params, 10)) {
        Step::Ask(_, call) => {
            let failed = Answer::Failed("no repository".to_string());
            let reply = finish_call(&mut state, call, failed).unwrap();
            let v: Value = serde_json::from_str(&reply).unwrap();
            assert_eq!(v["result"]["isError"], true);
            assert_eq!(v["result"]["content"][0]["text"], "no repository");
        }
        _ => panic!("git.diff asks for a diff"),
    }
}

#[test]
fn messages_without_an_id_are_not_replied_to() {
    let mut state = fresh_state("silent");
    assert!(state.can_call());
    assert!(state.can_resume(&Answer::Done));
    for method in ["initialize", "tools/list", "ping", "no/such"] {
        let line = format!(r#"{{"jsonrpc":"2.0","method":"{method}"}}"#);
        assert!(reply_of(&mut state, &line).is_none(), "{method}");
    }
}

#[test]
fn history_entries_carry_a_moment() {
    let mut state = fresh_state("moment");
    let args = r#"{"buffer_id":1,"version":0,"range":{"start":0,"end":0},"text":"hi"}"#;
    let edit = call_tool(&mut state, "edit.replace_range", args, 1);
    assert_eq!(edit["result"]["isError"], false);
    let entries = payload(&call_tool(&mut state, "history.recent", r#"{"limit":1}"#, 2));
    let at = &entries[0]["timestamp"];
    assert!(at["secs_since_epoch"].as_u64().unwrap() > 1_700_000_000);
    assert!(at["nanos_since_epoch"].as_u64().unwrap() < 1_000_000_000);
    assert!(entries[0]["conversation_id"].is_null());
    assert_eq!(entries[0]["files"][0], "/tmp/dyad_mcp_moment.rs");
}

fn ask(state: &mut ProtocolState, name: &str, args: &str) -> (Effect, PendingCall) {
    let params = format!(r#"{{"name":"{name}","arguments":{args}}}"#);
    match handle_line(state, &request("tools/call", &params, 9)) {
        Step::Ask(effect, call) => (effect, call),
        Step::Reply(r) => panic!("{name} was replied to at once: {r:?}"),
    }
}

fn finished(state: &mut ProtocolState, call: PendingCall, answer: Answer) -> Value {
    assert!(state.can_resume(&answer));
    serde_json::from_str(&finish_call(state, call, answer).unwrap()).unwrap()
}

fn state_with(name: &str, text: &str) -> ProtocolState {
    let path = format!("/tmp/dyad_mcp_{name}.rs");
    ProtocolState::open(path.clone(), path, Ok(Some(text.to_string())), 7).unwrap()
}

#[test]
fn every_tool_is_listed_once_and_found_by_its_name() {
    let tools = all_tools();
    let mut names: Vec<&str> = tools.iter().map(|t| t.name()).collect();
    for shipped in
        ["test.run", "test.last_results", "scope.imports", "scope.in_scope", "context.pack"]
    {
        assert!(names.contains(&shipped), "{shipped}");
    }
    for tool in &tools {
        assert_eq!(find_tool(tool.name()), Some(*tool));
    }
    names.sort();
    let listed = names.len();
    names.dedup();
    assert_eq!(names.len(), listed);
    assert!(find_tool("scope.locals").is_none());
    let mut state = fresh_state("unlisted");
    let v = call_tool(&mut state, "scope.locals", "{}", 1);
    assert_eq!(v["result"]["content"][0]["text"], "unknown tool: scope.locals");
}

#[test]
fn imports_are_listed_through_the_server() {
    let mut state = state_with("imports", "use std::fmt;\n\nuse std::io::Read;\nfn a() {}\n");
    let v = payload(&call_tool(&mut state, "scope.imports", r#"{"buffer_id":1}"#, 1));
    assert_eq!(v.as_array().unwrap().len(), 2);
    assert_eq!(v[0]["text"], "use std::fmt;");
    assert_eq!(v[0]["line"], 0);
    assert_eq!(v[1]["line"], 2);
    let v = call_tool(&mut state, "scope.imports", r#"{"buffer_id":7}"#, 2);
    assert_eq!(v["result"]["isError"], true);
    let path = "/tmp/dyad_mcp_imports.txt".to_string();
    let mut plain = ProtocolState::open(path.clone(), path, Ok(None), 7).unwrap();
    let v = call_tool(&mut plain, "scope.imports", r#"{"buffer_id":1}"#, 3);
    assert_eq!(v["result"]["isError"], true);
}

#[test]
fn contexts_are_packed_through_the_server() {
    let mut state = state_with("pack", "use std::fmt;\nfn a() {\n    1;\n}\nfn b() {}\n");
    let args = r#"{"buffer_id":1,"line":2,"character":4,"token_budget":1000}"#;
    let v = payload(&call_tool(&mut state, "context.pack", args, 1));
    assert_eq!(v["truncated"], false);
    assert_eq!(v["slices"].as_array().unwrap().len(), 3);
    assert_eq!(v["slices"][0]["reason"], "anchor: enclosing function");
    assert_eq!(v["slices"][0]["path"], "/tmp/dyad_mcp_pack.rs");
    assert_eq!(v["slices"][1]["text"], "use std::fmt;");
    assert_eq!(v["anchor"]["start"]["line"], 1);
    let args = r#"{"buffer_id":1,"line":2,"character":4,"token_budget":1}"#;
    let v = payload(&call_tool(&mut state, "context.pack", args, 2));
    assert_eq!(v["truncated"], true);
    assert_eq!(v["slices"].as_array().unwrap().len(), 1);
    let args = r#"{"buffer_id":1,"line":99,"character":0,"token_budget":1}"#;
    let v = call_tool(&mut state, "context.pack", args, 3);
    assert_eq!(v["result"]["isError"], true);
    let args = r#"{"buffer_id":1,"line":0,"character":0,"token_budget":1000}"#;
    let v = payload(&call_tool(&mut state, "context.pack", args, 4));
    assert!(v["anchor"].is_null());
}

#[test]
fn what_is_in_scope_is_answered_with_the_symbols_of_the_document() {
    let mut state = state_with("scope", "use std::fmt;\nfn a() {\n}\nfn b() {}\n");
    let args = r#"{"buffer_id":1,"line":2,"character":0}"#;
    let v = call_tool(&mut state, "scope.in_scope", args, 1);
    assert_eq!(v["result"]["isError"], true);
    state.core.server_started(Language::Rust);
    let (effect, call) = ask(&mut state, "scope.in_scope", args);
    assert!(matches!(effect, Effect::Server(ServerRequest::DocumentSymbols { .. })));
    let symbol = |name: &str, from: u32, to: u32| DocumentSymbol {
        name: name.to_string(),
        kind: 12,
        range: Range {
            start: Position { line: from, character: 0 },
            end: Position { line: to, character: 9 },
        },
        children: vec![],
    };
    let symbols = Answer::DocumentSymbols(vec![symbol("a", 1, 2), symbol("b", 3, 3)]);
    let v = payload(&finished(&mut state, call, symbols));
    assert_eq!(v["enclosing"][0]["name"], "a");
    assert_eq!(v["enclosing"][0]["kind"], 12);
    assert_eq!(v["siblings"][0]["name"], "b");
    assert_eq!(v["siblings"][0]["range"]["start"]["line"], 3);
    assert_eq!(v["imports"][0]["text"], "use std::fmt;");
    let (_, call) = ask(&mut state, "scope.in_scope", args);
    let v = finished(&mut state, call, Answer::Failed("gone".to_string()));
    assert_eq!(v["result"]["content"][0]["text"], "gone");
}

#[test]
fn test_runs_are_asked_for_and_their_results_kept() {
    let mut state = state_with("tests", "fn a() {}\n");
    assert!(payload(&call_tool(&mut state, "test.last_results", "{}", 1)).is_null());
    let args = r#"{"buffer_id":1,"target":"adds"}"#;
    let (effect, call) = ask(&mut state, "test.run", args);
    let Effect::RunTests(run) = effect else {
        panic!("test.run asks for a test run");
    };
    assert_eq!(run.path, "/tmp/dyad_mcp_tests.rs");
    assert_eq!(run.argv, vec!["cargo", "test", "--color", "never", "--", "adds"]);
    let stdout = "---- m::t stdout ----\nboom\n\n\
        test result: FAILED. 2 passed; 1 failed; 3 ignored; 0 measured\n";
    let answer = Answer::Tested {
        kind: run.kind,
        stdout: stdout.to_string(),
        stderr: "warning".to_string(),
        exit_ok: false,
    };
    let v = payload(&finished(&mut state, call, answer));
    assert_eq!(v["passed"], 2);
    assert_eq!(v["failed"], 1);
    assert_eq!(v["ignored"], 3);
    assert_eq!(v["failures"][0]["name"], "m::t");
    assert_eq!(v["failures"][0]["message"], "boom");
    assert_eq!(v["exit_ok"], false);
    assert!(v["raw_tail"].as_str().unwrap().ends_with("warning"));
    assert_eq!(payload(&call_tool(&mut state, "test.last_results", "{}", 2)), v);
    let v = call_tool(&mut state, "test.run", r#"{"buffer_id":1,"target":"--x"}"#, 3);
    assert_eq!(
        v["result"]["content"][0]["text"],
        "test target filter must not start with '-': \"--x\""
    );
    let v = call_tool(&mut state, "test.run", r#"{"buffer_id":9}"#, 4);
    assert_eq!(v["result"]["isError"], true);
}

#[test]
fn no_listed_tool_is_answered_as_unknown() {
    let mut state = fresh_state("known");
    for tool in all_tools() {
        for args in ["{}", "[]", "7", r#"{"buffer_id":99}"#, r#"{"buffer_id":"x"}"#] {
            let params = format!(r#"{{"name":"{}","arguments":{args}}}"#, tool.name());
            let line = request("tools/call", &params, 1);
            if let Step::Reply(r) = handle_line(&mut state, &line) {
                let v: Value = serde_json::from_str(&r.unwrap()).unwrap();
                let text = v["result"]["content"][0]["text"].as_str().unwrap().to_string();
                assert!(!text.starts_with("unknown tool: "), "{} {args}: {text}", tool.name());
            }
        }
    }
    let v = call_tool(&mut state, "buffer.lists", "{}", 2);
    assert_eq!(v["result"]["content"][0]["text"], "unknown tool: buffer.lists");
    let v = call_tool(&mut state, "buffer.version", r#"{"buffer_id":"x"}"#, 3);
    let text = v["result"]["content"][0]["text"].as_str().unwrap();
    assert_eq!(text, "invalid type: string \"x\", expected u64");
}
