use dyad::language::Language;
use dyad::lsp::client::{auto_pick_show_message_action, Incoming, LspState};
use dyad::lsp::messages::{
    did_change, did_close, did_open, exit, hover_answer, initialize_params, initialized, question,
    request_message, shape_of_definition, shape_of_rename, shape_of_symbols,
    stringify_hover_contents, AnswerShape,
};
use dyad::lsp::sync::CaughtUp;
use dyad::lsp::wire::{
    parse_body, read_message, write_message, FrameError, HeaderStep, Headers,
};
use dyad::lsp::{
    path_to_uri, uri_to_path, workspace_probes, workspace_root_for, Diagnostic, Position, Range,
};
use dyad::runtime::requests::ServerRequest;
use serde_json::Value;

fn json(text: &str) -> Value {
    serde_json::from_str(text).unwrap()
}

fn framed(body: &str) -> Vec<u8> {
    let mut v = Vec::new();
    v.extend_from_slice(format!("Content-Length: {}\r\n\r\n", body.len()).as_bytes());
    v.extend_from_slice(body.as_bytes());
    v
}

#[test]
fn read_message_parses_single_frame() {
    let bytes = framed(r#"{"jsonrpc":"2.0","id":1,"result":null}"#);
    let (msg, used) = read_message(&bytes, 0).unwrap().unwrap();
    assert_eq!(msg["id"], 1);
    assert_eq!(used, bytes.len());
}

#[test]
fn read_message_handles_multiple_frames_back_to_back() {
    let a = r#"{"jsonrpc":"2.0","method":"a"}"#;
    let b = r#"{"jsonrpc":"2.0","method":"b"}"#;
    let mut bytes = framed(a);
    bytes.extend(framed(b));
    let (m1, end1) = read_message(&bytes, 0).unwrap().unwrap();
    let (m2, end2) = read_message(&bytes, end1).unwrap().unwrap();
    assert_eq!(m1["method"], "a");
    assert_eq!(m2["method"], "b");
    assert!(read_message(&bytes, end2).unwrap().is_none());
}

#[test]
fn read_message_tolerates_unknown_headers() {
    let body = r#"{"jsonrpc":"2.0","id":7}"#;
    let mut bytes = Vec::new();
    bytes.extend_from_slice(b"Content-Type: application/vscode-jsonrpc; charset=utf-8\r\n");
    bytes.extend_from_slice(format!("Content-Length: {}\r\n\r\n", body.len()).as_bytes());
    bytes.extend_from_slice(body.as_bytes());
    let (msg, _) = read_message(&bytes, 0).unwrap().unwrap();
    assert_eq!(msg["id"], 7);
}

#[test]
fn frames_that_are_wrong_are_told_apart() {
    let bad = |s: &str| read_message(&s.as_bytes().to_vec(), 0).unwrap_err();
    assert_eq!(bad("Content-Length: x\r\n\r\n{}"), FrameError::BadLength);
    assert_eq!(bad("X: y\r\n\r\n{}"), FrameError::NoLength);
    assert_eq!(bad("Content-Length: 9\r\n\r\n{}"), FrameError::Truncated);
    assert_eq!(bad("Content-Length: 2\r\n\r\n{]"), FrameError::NotJson);
    assert_eq!(read_message(&vec![0xff, 10], 0).unwrap_err(), FrameError::Encoding);
    assert!(read_message(&b"Content-Length: 2\r\n".to_vec(), 0).unwrap().is_none());
}

#[test]
fn headers_are_taken_line_by_line() {
    let mut h = Headers::new();
    assert_eq!(h.take_line(b"Content-Type: x\r\n"), HeaderStep::More);
    assert_eq!(h.take_line(b"Content-Length:  12 \r\n"), HeaderStep::More);
    assert_eq!(h.take_line(b"\r\n"), HeaderStep::Body(12));
    assert_eq!(parse_body(b"[1]").unwrap()[0], 1);
    assert!(parse_body(b"[1").is_none());
    assert!(parse_body(&[0xff]).is_none());
}

#[test]
fn a_written_message_is_read_back() {
    let v = json(r#"{"b":[1,"é\n"],"a":null}"#);
    let bytes = write_message(&v);
    assert!(bytes.starts_with(b"Content-Length: 25\r\n\r\n{\"a\":null"));
    let mut stream = b"junk".to_vec();
    stream.extend(bytes.clone());
    stream.extend(b"more");
    let (back, end) = read_message(&stream, 4).unwrap().unwrap();
    assert_eq!(back, v);
    assert_eq!(end, 4 + bytes.len());
}

#[test]
fn update_diagnostics_writes_into_cache() {
    let mut state = LspState::new();
    let params = r#"{
        "uri": "file:///tmp/x.rs",
        "diagnostics": [
            {
                "range": {"start": {"line": 1, "character": 2}, "end": {"line": 1, "character": 5}},
                "severity": 1,
                "message": "boom",
                "source": "rustc"
            }
        ]
    }"#;
    let msg = json(&format!(
        r#"{{"method": "textDocument/publishDiagnostics", "params": {params}}}"#
    ));
    let (uri, items) = match state.receive(&msg) {
        Incoming::Diagnostics { uri, items } => (uri, items.unwrap()),
        other => panic!("expected diagnostics, got {other:?}"),
    };
    let mut diags = Vec::new();
    for d in items.as_array().unwrap() {
        let at = |side: &str| Position {
            line: d["range"][side]["line"].as_u64().unwrap() as u32,
            character: d["range"][side]["character"].as_u64().unwrap() as u32,
        };
        diags.push(Diagnostic {
            range: Range { start: at("start"), end: at("end") },
            severity: d["severity"].as_u64().map(|n| n as u8),
            message: d["message"].as_str().unwrap().to_string(),
            source: d["source"].as_str().map(str::to_string),
        });
    }
    state.update_diagnostics(uri, diags);
    let cached = state.diagnostics("file:///tmp/x.rs");
    assert_eq!(cached.len(), 1);
    assert_eq!(cached[0].message, "boom");
    assert_eq!(cached[0].severity, Some(1));
    assert!(state.diagnostics("file:///tmp/y.rs").is_empty());
    state.update_diagnostics("file:///tmp/x.rs".to_string(), vec![]);
    assert!(state.diagnostics("file:///tmp/x.rs").is_empty());
}

#[test]
fn servers_say_when_they_are_done_with_indexing() {
    let mut state = LspState::new();
    assert!(state.is_indexing(Language::Rust));
    assert!(!state.is_indexing(Language::Elm));
    let done = r#"{"method":"experimental/serverStatus","params":{"quiescent":true}}"#;
    assert!(matches!(state.receive(&json(done)), Incoming::Nothing));
    assert!(!state.is_indexing(Language::Rust));
    let busy = r#"{"method":"metals/status","params":{"text":"Compiling foo"}}"#;
    state.receive(&json(busy));
    assert!(state.is_indexing(Language::Scala));
    let hidden = r#"{"method":"metals/status","params":{"text":"Indexing","hide":true}}"#;
    state.receive(&json(hidden));
    assert!(!state.is_indexing(Language::Scala));
    state.receive(&json(busy));
    let finished = r#"{"method":"metals/status","params":{"text":"Finished Indexing"}}"#;
    state.receive(&json(finished));
    assert!(!state.is_indexing(Language::Scala));
}

#[test]
fn questions_of_the_server_are_answered() {
    let mut state = LspState::new();
    let ask = r#"{"id":"q1","method":"client/registerCapability","params":{}}"#;
    match state.receive(&json(ask)) {
        Incoming::Reply(v) => {
            assert_eq!(v["id"], "q1");
            assert!(v["result"].is_null());
            assert_eq!(v["jsonrpc"], "2.0");
        }
        other => panic!("expected a reply, got {other:?}"),
    }
    let pick = r#"{"id":3,"method":"window/showMessageRequest",
        "params":{"actions":[{"title":"Not now"},{"title":"import BUILD"}]}}"#;
    match state.receive(&json(pick)) {
        Incoming::Reply(v) => assert_eq!(v["result"]["title"], "import BUILD"),
        other => panic!("expected a reply, got {other:?}"),
    }
}

#[test]
fn answers_carry_their_number() {
    let mut state = LspState::new();
    match state.receive(&json(r#"{"id":5,"result":[1]}"#)) {
        Incoming::Answer { id, result } => {
            assert_eq!(id, 5);
            assert_eq!(result[0], 1);
        }
        other => panic!("expected an answer, got {other:?}"),
    }
    assert!(matches!(
        state.receive(&json(r#"{"id":5,"error":{}}"#)),
        Incoming::Answer { id: 5, result: Value::Null }
    ));
    assert!(matches!(state.receive(&json(r#"{"id":"x"}"#)), Incoming::Nothing));
    assert!(matches!(state.receive(&json("{}")), Incoming::Nothing));
}

#[test]
fn the_first_action_stands_in_for_an_import() {
    let offered = json(r#"{"actions":[{"title":"Yes"},{"title":"No"}]}"#);
    assert_eq!(auto_pick_show_message_action(Some(&offered))["title"], "Yes");
    assert!(auto_pick_show_message_action(Some(&json(r#"{"actions":[]}"#))).is_null());
    assert!(auto_pick_show_message_action(None).is_null());
}

#[test]
fn hover_contents_are_flattened() {
    assert_eq!(stringify_hover_contents(&json(r#""plain""#)), "plain");
    assert_eq!(stringify_hover_contents(&json(r#"{"kind":"markdown","value":"v"}"#)), "v");
    assert_eq!(
        stringify_hover_contents(&json(r#"["a",{"value":""},["b",{"value":"c"}],7]"#)),
        "a\n\nb\n\nc"
    );
    assert_eq!(hover_answer(&json(r#"{"contents":"  "}"#)), None);
    assert_eq!(hover_answer(&json("null")), None);
    assert_eq!(hover_answer(&json(r#"{"contents":"fn f()"}"#)).as_deref(), Some("fn f()"));
}

#[test]
fn definitions_come_in_three_shapes() {
    assert_eq!(shape_of_definition(&json("null")), AnswerShape::Nothing);
    assert_eq!(shape_of_definition(&json("[]")), AnswerShape::Many);
    assert_eq!(shape_of_definition(&json("{}")), AnswerShape::One);
    assert_eq!(shape_of_definition(&json("3")), AnswerShape::Nothing);
    assert_eq!(shape_of_symbols(&json("{}")), AnswerShape::Nothing);
    assert_eq!(shape_of_symbols(&json("[]")), AnswerShape::Many);
    assert_eq!(shape_of_rename(&json("null")), AnswerShape::Nothing);
    assert_eq!(shape_of_rename(&json("{}")), AnswerShape::One);
}

#[test]
fn initialize_names_what_the_editor_can_do() {
    let rust = initialize_params(Language::Rust, 42, "file:///w");
    assert_eq!(rust["processId"], 42);
    assert_eq!(rust["rootUri"], "file:///w");
    assert_eq!(rust["clientInfo"]["name"], "dyad");
    assert_eq!(rust["capabilities"]["experimental"]["serverStatusNotification"], true);
    assert_eq!(
        rust["capabilities"]["textDocument"]["synchronization"]["willSaveWaitUntil"],
        false
    );
    assert_eq!(
        rust["capabilities"]["textDocument"],
        json(
            r#"{"publishDiagnostics":{"relatedInformation":false},
                "definition":{"linkSupport":false},
                "hover":{},
                "synchronization":{"didSave":false,"willSave":false,"willSaveWaitUntil":false}}"#
        )
    );
    assert!(rust.get("initializationOptions").is_none());
    let scala = initialize_params(Language::Scala, 1, "file:///w");
    assert_eq!(scala["initializationOptions"]["statusBarProvider"], "on");
    assert!(scala["capabilities"].get("experimental").is_none());
}

#[test]
fn documents_are_told_of_in_full() {
    let open = did_open("file:///a", "rust", "text");
    assert_eq!(open["method"], "textDocument/didOpen");
    assert_eq!(open["params"]["textDocument"]["version"], 0);
    assert_eq!(open["params"]["textDocument"]["text"], "text");
    let change = did_change("file:///a", 3, "new");
    assert_eq!(change["params"]["textDocument"]["version"], 3);
    assert_eq!(change["params"]["contentChanges"][0]["text"], "new");
    assert_eq!(did_close("file:///a")["params"]["textDocument"]["uri"], "file:///a");
    assert!(exit()["params"].is_null());
    assert!(initialized()["params"].is_object());
}

#[test]
fn questions_are_put_with_their_place_and_patience() {
    let hover = ServerRequest::Hover {
        language: Language::Rust,
        uri: "file:///a".to_string(),
        line: 2,
        character: 5,
    };
    let q = question(&hover).unwrap();
    assert_eq!(q.method, "textDocument/hover");
    assert_eq!(q.params["position"]["character"], 5);
    assert_eq!(q.timeout_secs, 10);
    let rename = ServerRequest::Rename {
        language: Language::Rust,
        uri: "file:///a".to_string(),
        line: 0,
        character: 0,
        new_name: "b".to_string(),
    };
    let q = question(&rename).unwrap();
    assert_eq!(q.params["newName"], "b");
    assert_eq!(q.timeout_secs, 15);
    let msg = request_message(9, q.method, q.params);
    assert_eq!(msg["id"], 9);
    assert_eq!(msg["method"], "textDocument/rename");
    let published = ServerRequest::Diagnostics {
        language: Language::Rust,
        uri: "file:///a".to_string(),
    };
    assert!(question(&published).is_none());
}

#[test]
fn workspace_root_walks_up_to_cargo_toml() {
    let existing = vec!["/work/dyad/Cargo.toml".to_string()];
    let root = workspace_root_for("/work/dyad/src/main.rs", Language::Rust, &existing);
    assert_eq!(root, "/work/dyad");
}

#[test]
fn workspace_root_walks_up_to_build_sbt() {
    let base = "/tmp/dyad-ws";
    let existing = vec![format!("{base}/scala/build.sbt"), format!("{base}/Cargo.toml")];
    let nested = format!("{base}/scala/src/Main.scala");
    assert_eq!(
        workspace_root_for(&nested, Language::Scala, &existing),
        format!("{base}/scala")
    );
    assert_eq!(workspace_root_for(&nested, Language::Rust, &existing), base);
    assert_eq!(
        workspace_root_for(&nested, Language::Elm, &existing),
        format!("{base}/scala/src")
    );
}

#[test]
fn the_paths_to_probe_go_up_to_the_root() {
    assert_eq!(
        workspace_probes("/a/b.rs", Language::Rust),
        vec!["/a/Cargo.toml", "/Cargo.toml"]
    );
}

#[test]
fn addresses_lead_back_to_paths() {
    assert_eq!(path_to_uri("/a b/c.rs"), "file:///a b/c.rs");
    assert_eq!(uri_to_path("file:///a b/c.rs").as_deref(), Some("/a b/c.rs"));
    assert_eq!(uri_to_path("https://a"), None);
}

#[test]
fn a_server_is_idle_once_it_has_caught_up() {
    let mut known = LspState::new();
    let mut caught_up = CaughtUp::new();
    let ready = r#"{"method":"experimental/serverStatus","params":{"quiescent":true}}"#;
    assert!(!caught_up.is_idle(&known, Language::Elm, "file:///a"));
    caught_up.published("file:///a");
    caught_up.published("file:///b");
    caught_up.published("file:///a");
    assert!(caught_up.is_idle(&known, Language::Elm, "file:///a"));
    assert!(!caught_up.is_idle(&known, Language::Rust, "file:///a"));
    known.receive(&json(ready));
    assert!(caught_up.is_idle(&known, Language::Rust, "file:///a"));
    caught_up.synced("file:///a");
    assert!(!caught_up.is_idle(&known, Language::Rust, "file:///a"));
    assert!(caught_up.is_idle(&known, Language::Rust, "file:///b"));
}

#[test]
fn waiting_ends_when_the_server_is_idle_or_the_time_is_up() {
    let known = LspState::new();
    let mut caught_up = CaughtUp::new();
    let wait = |c: &CaughtUp, elapsed: u64| {
        c.wait_until_idle(&known, Language::Elm, "file:///a", elapsed, 100)
    };
    assert_eq!(wait(&caught_up, 99), None);
    assert_eq!(wait(&caught_up, 100), Some(false));
    caught_up.published("file:///a");
    assert_eq!(wait(&caught_up, 0), Some(true));
    assert_eq!(wait(&caught_up, 500), Some(true));
}
