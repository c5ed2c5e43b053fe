//! Whole sessions with a client, line by line.

use dyad::mcp::calls::{Answer, Effect, ProtocolState};
use dyad::mcp::{finish_call, handle_line, Step};
use serde_json::Value;

/// A session that reads files from a list instead of a disk.
struct McpSession {
    state: ProtocolState,
    files: Vec<(String, String)>,
}

impl McpSession {
    fn start(seed: &str, label: &str) -> Self {
        let path = format!("/tmp/dyad_it_{label}.rs");
        let state =
            ProtocolState::open(path.clone(), path, Ok(Some(seed.to_string())), 7).unwrap();
        Self { state, files: Vec::new() }
    }

    fn send(&mut self, line: &str) -> Option<String> {
        match handle_line(&mut self.state, line) {
            Step::Reply(r) => r,
            Step::Ask(Effect::Open { path }, call) => {
                let found = self.files.iter().find(|(p, _)| *p == path);
                let loaded = Ok(found.map(|(_, text)| text.clone()));
                finish_call(&mut self.state, call, Answer::File { absolute: path, loaded })
            }
            Step::Ask(_, _) => panic!("nothing else is asked for here"),
        }
    }

    fn call(&mut self, id: u64, method: &str, params: &str) -> Value {
        let line =
            format!(r#"{{"jsonrpc":"2.0","id":{id},"method":"{method}","params":{params}}}"#);
        serde_json::from_str(&self.send(&line).unwrap()).unwrap()
    }

    fn call_tool(&mut self, id: u64, name: &str, arguments: &str) -> Value {
        let params = format!(r#"{{"name":"{name}","arguments":{arguments}}}"#);
        self.call(id, "tools/call", &params)
    }
}

fn tool_payload(response: &Value) -> Value {
    let text = response["result"]["content"][0]["text"]
        .as_str()
        .expect("tool result text");
    serde_json::from_str(text).expect("tool result body is JSON")
}

fn replace(version: u64, start: usize, end: usize, text: &str) -> String {
    let text = Value::from(text).to_string();
    format!(
        r#"{{"buffer_id":1,"version":{version},"range":{{"start":{start},"end":{end}}},"text":{text}}}"#
    )
}

#[test]
fn initialize_returns_server_info_and_tools_list() {
    let mut s = McpSession::start("fn hello() {}\n", "init");
    let init = s.call(1, "initialize", "{}");
    assert_eq!(init["id"], 1);
    assert_eq!(init["result"]["serverInfo"]["name"], "dyad");
    assert_eq!(init["result"]["protocolVersion"], "2024-11-05");

    let tools = s.call(2, "tools/list", "{}");
    let names: Vec<&str> = tools["result"]["tools"]
        .as_array()
        .unwrap()
        .iter()
        .map(|t| t["name"].as_str().unwrap())
        .collect();
    for required in [
        "buffer.read",
        "edit.replace_range",
        "edit.replace_node",
        "ast.query",
        "tx.begin",
        "tx.commit",
        "tx.rollback",
        "history.recent",
        "buffer.open",
        "buffer.close",
        "buffer.list",
        "clients.list",
        "edit.propose_range",
        "proposals.list",
        "proposals.accept",
        "proposals.reject",
    ] {
        assert!(names.contains(&required), "missing tool {required}");
    }
}

#[test]
fn read_then_edit_then_read_round_trips() {
    let mut s = McpSession::start("fn hello() {}\n", "round_trip");
    let _ = s.call(1, "initialize", "{}");

    let read_pre = s.call_tool(2, "buffer.read", r#"{"buffer_id":1}"#);
    let pre = tool_payload(&read_pre);
    assert_eq!(pre["text"], "fn hello() {}\n");

    let v0 = pre["version"].as_u64().unwrap();
    let edit = s.call_tool(3, "edit.replace_range", &replace(v0, 3, 8, "farewell"));
    assert_eq!(edit["result"]["isError"], false);

    let read_post = s.call_tool(4, "buffer.read", r#"{"buffer_id":1}"#);
    let post = tool_payload(&read_post);
    assert_eq!(post["text"], "fn farewell() {}\n");
    assert!(post["version"].as_u64().unwrap() > v0);
}

#[test]
fn version_mismatch_is_surfaced_as_tool_error() {
    let mut s = McpSession::start("fn x() {}\n", "version");
    let _ = s.call(1, "initialize", "{}");
    let resp = s.call_tool(2, "edit.replace_range", &replace(999, 0, 0, "x"));
    assert_eq!(resp["result"]["isError"], true);
    let msg = resp["result"]["content"][0]["text"].as_str().unwrap();
    assert!(msg.contains("version mismatch"), "got: {msg}");
}

#[test]
fn ast_query_finds_function_names_through_jsonrpc() {
    let mut s = McpSession::start("fn alpha() {}\nfn beta() {}\n", "ast");
    let _ = s.call(1, "initialize", "{}");
    let resp = s.call_tool(
        2,
        "ast.query",
        r#"{"buffer_id":1,"query":"(function_item name: (identifier) @name)"}"#,
    );
    assert_eq!(resp["result"]["isError"], false);
    let matches = tool_payload(&resp);
    let names: Vec<&str> = matches
        .as_array()
        .unwrap()
        .iter()
        .filter(|m| m["capture"] == "name")
        .map(|m| m["kind"].as_str().unwrap())
        .collect();
    assert!(!names.is_empty());
}

#[test]
fn transaction_commit_collapses_multiple_edits_into_one_history_entry() {
    let mut s = McpSession::start("", "tx");
    let _ = s.call(1, "initialize", "{}");

    let begin = s.call_tool(2, "tx.begin", r#"{"buffer_id":1,"intent":"compose"}"#);
    let tx_id = tool_payload(&begin)["tx_id"].as_u64().unwrap();

    let read = s.call_tool(3, "buffer.read", r#"{"buffer_id":1}"#);
    let v0 = tool_payload(&read)["version"].as_u64().unwrap();
    let edit1 = s.call_tool(4, "edit.replace_range", &replace(v0, 0, 0, "fn a() {}\n"));
    let v1 = tool_payload(&edit1)["version"].as_u64().unwrap();
    let _ = s.call_tool(5, "edit.replace_range", &replace(v1, 0, 0, "// intro\n"));
    let _commit = s.call_tool(6, "tx.commit", &format!(r#"{{"tx_id":{tx_id}}}"#));

    let hist = s.call_tool(7, "history.recent", r#"{"limit":10}"#);
    let entries = tool_payload(&hist);
    let arr = entries.as_array().unwrap();
    assert_eq!(arr.len(), 1, "single history entry for the explicit tx");
    assert_eq!(arr[0]["intent"], "compose");
}

#[test]
fn tx_rollback_restores_text_and_drops_history_entry() {
    let mut s = McpSession::start("seed\n", "rollback");
    let _ = s.call(1, "initialize", "{}");

    let begin = s.call_tool(2, "tx.begin", r#"{"buffer_id":1,"intent":"doomed"}"#);
    let tx_id = tool_payload(&begin)["tx_id"].as_u64().unwrap();
    let read = s.call_tool(3, "buffer.read", r#"{"buffer_id":1}"#);
    let v0 = tool_payload(&read)["version"].as_u64().unwrap();
    let _ = s.call_tool(4, "edit.replace_range", &replace(v0, 0, 0, "junk "));
    let _ = s.call_tool(5, "tx.rollback", &format!(r#"{{"tx_id":{tx_id}}}"#));

    let after = tool_payload(&s.call_tool(6, "buffer.read", r#"{"buffer_id":1}"#));
    assert_eq!(after["text"], "seed\n");

    let hist = tool_payload(&s.call_tool(7, "history.recent", r#"{"limit":10}"#));
    assert!(hist.as_array().unwrap().is_empty());
}

#[test]
fn proposal_lifecycle_accept_replaces_text_with_recorded_intent() {
    let mut s = McpSession::start("fn hello() {}\n", "propose");
    let _ = s.call(1, "initialize", "{}");

    let read = s.call_tool(2, "buffer.read", r#"{"buffer_id":1}"#);
    let v0 = tool_payload(&read)["version"].as_u64().unwrap();
    let args = format!(
        r#"{{"buffer_id":1,"version":{v0},"range":{{"start":3,"end":8}},"text":"farewell","intent":"rename hello -> farewell"}}"#
    );
    let prop = s.call_tool(3, "edit.propose_range", &args);
    let id = tool_payload(&prop)["proposal_id"].as_u64().unwrap();

    let list = tool_payload(&s.call_tool(4, "proposals.list", "{}"));
    assert_eq!(list.as_array().unwrap().len(), 1);

    let _ = s.call_tool(5, "proposals.accept", &format!(r#"{{"proposal_id":{id}}}"#));
    let post = tool_payload(&s.call_tool(6, "buffer.read", r#"{"buffer_id":1}"#));
    assert_eq!(post["text"], "fn farewell() {}\n");
    let drained = tool_payload(&s.call_tool(7, "proposals.list", "{}"));
    assert!(drained.as_array().unwrap().is_empty());

    let hist = tool_payload(&s.call_tool(8, "history.recent", r#"{"limit":10}"#));
    let last_intent = hist.as_array().unwrap().last().unwrap()["intent"]
        .as_str()
        .unwrap();
    assert_eq!(last_intent, "rename hello -> farewell");
}

#[test]
fn multi_buffer_open_and_list_assigns_ascending_ids() {
    let mut s = McpSession::start("fn one() {}\n", "multi");
    let _ = s.call(1, "initialize", "{}");

    s.files.push(("/tmp/dyad_it_multi_b.rs".to_string(), "fn two() {}\n".to_string()));
    let resp = s.call_tool(2, "buffer.open", r#"{"path":"/tmp/dyad_it_multi_b.rs"}"#);
    let new_id = tool_payload(&resp)["buffer_id"].as_u64().unwrap();
    assert_eq!(new_id, 2);

    let list = tool_payload(&s.call_tool(3, "buffer.list", "{}"));
    let ids: Vec<u64> = list
        .as_array()
        .unwrap()
        .iter()
        .map(|e| e["id"].as_u64().unwrap())
        .collect();
    assert_eq!(ids, vec![1, 2]);
}

#[test]
fn parse_error_returns_minus_32700_with_id_null() {
    let mut s = McpSession::start("", "parse");
    let _ = s.call(1, "initialize", "{}");
    let line = s.send("{this is not valid").unwrap();
    let v: Value = serde_json::from_str(&line).unwrap();
    assert_eq!(v["error"]["code"], -32700);
    assert!(v["id"].is_null());
}

#[test]
fn unknown_method_returns_minus_32601() {
    let mut s = McpSession::start("", "unknown");
    let _ = s.call(1, "initialize", "{}");
    let v = s.call(2, "does/not/exist", "{}");
    assert_eq!(v["error"]["code"], -32601);
}

#[test]
fn mcp_integration_initialized_notification_returns_no_response() {
    let mut s = McpSession::start("", "notify");
    let _ = s.call(1, "initialize", "{}");
    let silent = s.send(r#"{"jsonrpc":"2.0","method":"notifications/initialized"}"#);
    assert!(silent.is_none());
    let v = s.call(2, "tools/list", "{}");
    assert_eq!(v["id"], 2);
    assert!(v["result"]["tools"].is_array());
}

#[test]
fn opening_a_missing_file_yields_an_empty_buffer() {
    let path = "/tmp/dyad_bio_missing.rs".to_string();
    let state = ProtocolState::open(path.clone(), path, Ok(None), 7).unwrap();
    let mut s = McpSession { state, files: Vec::new() };
    let _ = s.call(1, "initialize", "{}");
    let body = tool_payload(&s.call_tool(2, "buffer.read", r#"{"buffer_id":1}"#));
    assert_eq!(body["text"], "");
}

#[test]
fn edit_replace_node_through_protocol_rewrites_identifier() {
    let mut s = McpSession::start("fn hello() {}\n", "replace_node");
    let _ = s.call(1, "initialize", "{}");
    let q = s.call_tool(
        2,
        "ast.query",
        r#"{"buffer_id":1,"query":"(function_item name: (identifier) @name)"}"#,
    );
    let matches = tool_payload(&q);
    let name = matches
        .as_array()
        .unwrap()
        .iter()
        .find(|m| m["capture"] == "name")
        .expect("function name match");
    let bs = name["byte_start"].as_u64().unwrap();
    let be = name["byte_end"].as_u64().unwrap();

    let read = s.call_tool(3, "buffer.read", r#"{"buffer_id":1}"#);
    let v0 = tool_payload(&read)["version"].as_u64().unwrap();
    let args = format!(
        r#"{{"buffer_id":1,"version":{v0},"byte_range":{{"start":{bs},"end":{be}}},"text":"farewell"}}"#
    );
    let _ = s.call_tool(4, "edit.replace_node", &args);

    let post = tool_payload(&s.call_tool(5, "buffer.read", r#"{"buffer_id":1}"#));
    assert_eq!(post["text"], "fn farewell() {}\n");
}

#[test]
fn buffer_read_with_range_returns_substring() {
    let mut s = McpSession::start("abcdefgh\n", "range");
    let _ = s.call(1, "initialize", "{}");
    let part = tool_payload(&s.call_tool(
        2,
        "buffer.read",
        r#"{"buffer_id":1,"range":{"start":2,"end":6}}"#,
    ));
    assert_eq!(part["text"], "cdef");
}

#[test]
fn buffer_read_out_of_range_errors() {
    let mut s = McpSession::start("ab\n", "out_of_range");
    let _ = s.call(1, "initialize", "{}");
    let resp = s.call_tool(
        2,
        "buffer.read",
        r#"{"buffer_id":1,"range":{"start":0,"end":99}}"#,
    );
    assert_eq!(resp["result"]["isError"], true);
}

#[test]
fn clients_list_reports_a_single_agent_session() {
    let mut s = McpSession::start("fn x() {}\n", "clients");
    let _ = s.call(1, "initialize", "{}");
    let clients = tool_payload(&s.call_tool(2, "clients.list", "{}"));
    let arr = clients.as_array().unwrap();
    assert_eq!(arr.len(), 1);
    assert_eq!(arr[0]["kind"], "agent");
    assert_eq!(arr[0]["focus"], 1);
}

#[test]
fn buffer_close_drops_id_and_shifts_focus() {
    let mut s = McpSession::start("fn one() {}\n", "close_first");
    let _ = s.call(1, "initialize", "{}");
    s.files.push(("/tmp/dyad_bio_close_second.rs".to_string(), "fn two() {}\n".to_string()));
    let open = s.call_tool(2, "buffer.open", r#"{"path":"/tmp/dyad_bio_close_second.rs"}"#);
    assert_eq!(tool_payload(&open)["buffer_id"], 2);

    let _ = s.call_tool(3, "buffer.close", r#"{"buffer_id":2}"#);
    let list = tool_payload(&s.call_tool(4, "buffer.list", "{}"));
    let ids: Vec<u64> = list
        .as_array()
        .unwrap()
        .iter()
        .map(|e| e["id"].as_u64().unwrap())
        .collect();
    assert_eq!(ids, vec![1]);
}
