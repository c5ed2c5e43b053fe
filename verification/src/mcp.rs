//! The agent server: JSON-RPC, one message per line, over the runtime.
//!
//! `handle_line` takes a message and gives the reply, or asks for an effect
//! first; `finish_call` gives the reply once the effect is answered.

use serde_json::Value;
use vstd::prelude::*;

use crate::json;
use crate::json::{
    as_text, boolean, get, list, list1, null, obj0, obj1, obj2, obj3, parse_value, signed,
    string, write_value,
};
use crate::runtime;
use crate::text::{join2, owned, same};

pub mod args;
pub mod calls;
pub mod effects;
pub mod laws;
pub mod outcomes;
pub mod payload;
pub mod places;
pub mod shapes;
pub mod tools;

use crate::mcp::args::read_args;
use crate::mcp::calls::{keep, Answer, Effect, Kept, Outcome, ProtocolState};
use crate::mcp::tools::{find_tool, tools_list_result, Tool};

verus! {

/// The version of the protocol.
pub const PROTOCOL_VERSION: &'static str = "2024-11-05";

/// What the server calls itself.
pub const SERVER_NAME: &'static str = "dyad";

/// The version of the server.
pub const SERVER_VERSION: &'static str = "0.1.0";

// --------------------------------------------------------------------- replies

/// The answer to `initialize`.
pub open spec fn initialize_json() -> json::Json {
    json::obj(
        seq![
            ("protocolVersion"@, json::Json::Text(PROTOCOL_VERSION@)),
            ("capabilities"@, json::obj(seq![("tools"@, json::obj(Seq::empty()))])),
            (
                "serverInfo"@,
                json::obj(
                    seq![
                        ("name"@, json::Json::Text(SERVER_NAME@)),
                        ("version"@, json::Json::Text(SERVER_VERSION@)),
                    ],
                ),
            ),
        ],
    )
}

fn initialize_result() -> (r: Value)
    ensures
        json::value_json(r) == initialize_json(),
{
    obj3(
        "protocolVersion",
        string(PROTOCOL_VERSION),
        "capabilities",
        obj1("tools", obj0()),
        "serverInfo",
        obj2("name", string(SERVER_NAME), "version", string(SERVER_VERSION)),
    )
}

/// The lists of resources and prompts: there are none.
pub open spec fn nothing_hosted_json() -> json::Json {
    json::obj(
        seq![
            ("resources"@, json::Json::List(Seq::empty())),
            ("prompts"@, json::Json::List(Seq::empty())),
        ],
    )
}

fn nothing_hosted() -> (r: Value)
    ensures
        json::value_json(r) == nothing_hosted_json(),
{
    let a: Vec<Value> = Vec::new();
    let b: Vec<Value> = Vec::new();
    assert(json::trees(a@) =~= Seq::empty());
    assert(json::trees(b@) =~= Seq::empty());
    obj2("resources", list(a), "prompts", list(b))
}

/// The reply to a request that went well.
pub open spec fn success_json(id: json::Json, result: json::Json) -> json::Json {
    json::obj(seq![("jsonrpc"@, json::Json::Text("2.0"@)), ("id"@, id), ("result"@, result)])
}

/// The reply to a request that did not.
pub open spec fn failure_json(id: json::Json, code: int, message: Seq<char>) -> json::Json {
    json::obj(
        seq![
            ("jsonrpc"@, json::Json::Text("2.0"@)),
            ("id"@, id),
            (
                "error"@,
                json::obj(
                    seq![
                        ("code"@, json::Json::Int(code)),
                        ("message"@, json::Json::Text(message)),
                    ],
                ),
            ),
        ],
    )
}

fn success_response(id: Value, result: Value) -> (r: String)
    ensures
        r@ == json::json_text(success_json(json::value_json(id), json::value_json(result))),
{
    write_value(&obj3("jsonrpc", string("2.0"), "id", id, "result", result))
}

fn error_response(id: Value, code: i64, message: &str) -> (r: String)
    ensures
        r@ == json::json_text(failure_json(json::value_json(id), code as int, message@)),
{
    write_value(
        &obj3(
            "jsonrpc",
            string("2.0"),
            "id",
            id,
            "error",
            obj2("code", signed(code), "message", string(message)),
        ),
    )
}

/// The notation of a call's value, or why the call was refused.
pub open spec fn result_text(r: Result<json::Json, Seq<char>>) -> Seq<char> {
    match r {
        Ok(v) => json::json_text(v),
        Err(e) => e,
    }
}

/// What a tool call returns.
pub open spec fn call_result_json(r: Result<json::Json, Seq<char>>) -> json::Json {
    json::obj(
        seq![
            (
                "content"@,
                json::Json::List(
                    seq![
                        json::obj(
                            seq![
                                ("type"@, json::Json::Text("text"@)),
                                ("text"@, json::Json::Text(result_text(r))),
                            ],
                        ),
                    ],
                ),
            ),
            ("isError"@, json::Json::Bool(r is Err)),
        ],
    )
}

fn call_tool_result(outcome: Result<Value, String>) -> (r: Value)
    ensures
        json::value_json(r) == call_result_json(calls::result_view(outcome)),
{
    let (text, failed) = match outcome {
        Ok(v) => (write_value(&v), false),
        Err(e) => (e, true),
    };
    assert(text@ == result_text(calls::result_view(outcome)));
    obj2(
        "content",
        list1(obj2("type", string("text"), "text", string(&text))),
        "isError",
        boolean(failed),
    )
}

// -------------------------------------------------------------------- messages

/// A call that waits for the answer to its effect.
pub struct PendingCall {
    pub id: Option<Value>,
    pub tool: Tool,
    pub kept: Kept,
}

/// What becomes of a message.
pub enum Step {
    /// The reply, where one is due.
    Reply(Option<String>),
    /// The effect that is asked for first.
    Ask(Effect, PendingCall),
}

/// The same, over trees and texts.
pub enum StepModel {
    Reply(Option<Seq<char>>),
    Ask {
        effect: calls::EffectModel,
        id: Option<json::Json>,
        tool: Tool,
        kept: calls::KeptModel,
    },
}

pub open spec fn id_view(id: Option<Value>) -> Option<json::Json> {
    match id {
        Some(v) => Some(json::value_json(v)),
        None => None,
    }
}

pub open spec fn reply_view(r: Option<String>) -> Option<Seq<char>> {
    match r {
        Some(s) => Some(s@),
        None => None,
    }
}

impl View for Step {
    type V = StepModel;

    open spec fn view(&self) -> StepModel {
        match *self {
            Step::Reply(r) => StepModel::Reply(reply_view(r)),
            Step::Ask(e, c) => StepModel::Ask {
                effect: e@,
                id: id_view(c.id),
                tool: c.tool,
                kept: c.kept@,
            },
        }
    }
}

/// The reply to a message, where one is due: a message without an id wants none.
pub open spec fn replied(
    id: Option<json::Json>,
    r: Result<json::Json, (int, Seq<char>)>,
) -> Option<Seq<char>> {
    match id {
        None => None,
        Some(id) => Some(
            json::json_text(
                match r {
                    Ok(v) => success_json(id, v),
                    Err((code, message)) => failure_json(id, code, message),
                },
            ),
        ),
    }
}

fn reply(id: Option<Value>, r: Result<Value, (i64, String)>) -> (out: Option<String>)
    ensures
        reply_view(out) == replied(
            id_view(id),
            match r {
                Ok(v) => Ok(json::value_json(v)),
                Err((code, message)) => Err((code as int, message@)),
            },
        ),
{
    match id {
        None => None,
        Some(id) => Some(
            match r {
                Ok(v) => success_response(id, v),
                Err((code, message)) => error_response(id, code, &message),
            },
        ),
    }
}

/// The method that a message names.
pub open spec fn method_of(j: json::Json) -> Seq<char> {
    match json::member(j, "method"@) {
        Some(json::Json::Text(s)) => s,
        _ => ""@,
    }
}

/// A member, or the empty object.
pub open spec fn member_or_empty(j: json::Json, key: Seq<char>) -> json::Json {
    match json::member(j, key) {
        Some(v) => v,
        None => json::obj(Seq::empty()),
    }
}

/// The name of the tool that a call is for.
pub open spec fn called_name(params: json::Json) -> Option<Seq<char>> {
    match json::member(params, "name"@) {
        Some(json::Json::Text(s)) => Some(s),
        _ => None,
    }
}

fn text_member(v: &Value, key: &str) -> (r: Option<String>)
    ensures
        match json::member(json::value_json(*v), key@) {
            Some(json::Json::Text(s)) => r is Some && r->Some_0@ == s,
            _ => r is None,
        },
{
    match get(v, key) {
        Some(x) => as_text(&x),
        None => None,
    }
}

fn member_value(v: &Value, key: &str) -> (r: Value)
    ensures
        json::value_json(r) == member_or_empty(json::value_json(*v), key@),
{
    match get(v, key) {
        Some(x) => x,
        None => obj0(),
    }
}

/// A call of `tool` leaves `after` and gets as far as `step`.
pub open spec fn tool_run(
    m: runtime::CoreModel,
    client: Seq<char>,
    id: Option<json::Json>,
    params: json::Json,
    tool: Tool,
    after: runtime::CoreModel,
    step: StepModel,
) -> bool {
    match args::args_of(member_or_empty(params, "arguments"@), tools::tool_fields(tool)) {
        Err(e) => after == m && step == StepModel::Reply(
            replied(id, Ok(call_result_json(Err(e)))),
        ),
        Ok(a) => exists|out: calls::OutcomeModel| #[trigger]
            calls::calls(m, client, tool, a, after, out) && step == (match out {
                calls::OutcomeModel::Done(r) => StepModel::Reply(
                    replied(id, Ok(call_result_json(r))),
                ),
                calls::OutcomeModel::Ask(effect) => StepModel::Ask {
                    effect,
                    id,
                    tool,
                    kept: calls::kept_of(tool, a),
                },
            }),
    }
}

/// A tool call leaves `after` and gets as far as `step`.
pub open spec fn tool_called(
    m: runtime::CoreModel,
    client: Seq<char>,
    id: Option<json::Json>,
    params: json::Json,
    after: runtime::CoreModel,
    step: StepModel,
) -> bool {
    match called_name(params) {
        None => after == m && step == StepModel::Reply(
            replied(id, Err((-32602, "tools/call missing `name`"@))),
        ),
        Some(name) => match tools::tool_named(name) {
            None => after == m && step == StepModel::Reply(
                replied(id, Ok(call_result_json(Err(tools::unknown_text(name))))),
            ),
            Some(tool) => tool_run(m, client, id, params, tool, after, step),
        },
    }
}

/// A message leaves `after` and gets as far as `step`.
pub open spec fn handled(
    m: runtime::CoreModel,
    client: Seq<char>,
    j: json::Json,
    after: runtime::CoreModel,
    step: StepModel,
) -> bool {
    let id = json::member(j, "id"@);
    let method = method_of(j);
    if method == "initialize"@ {
        after == m && step == StepModel::Reply(replied(id, Ok(initialize_json())))
    } else if method == "notifications/initialized"@ || method == "initialized"@ {
        after == m && step == StepModel::Reply(None)
    } else if method == "tools/list"@ {
        after == m && step == StepModel::Reply(replied(id, Ok(tools::tools_json())))
    } else if method == "tools/call"@ {
        tool_called(m, client, id, member_or_empty(j, "params"@), after, step)
    } else if method == "ping"@ {
        after == m && step == StepModel::Reply(replied(id, Ok(json::obj(Seq::empty()))))
    } else if method == "resources/list"@ || method == "prompts/list"@ {
        after == m && step == StepModel::Reply(replied(id, Ok(nothing_hosted_json())))
    } else {
        after == m && step == StepModel::Reply(
            replied(id, Err((-32601, "method not found: "@ + method))),
        )
    }
}

/// A call, as far as it got, was not answered in the words that are said of a tool that is
/// not there.
pub open spec fn answered_as_known(id: Option<json::Json>, step: StepModel) -> bool {
    match step {
        StepModel::Ask { .. } => true,
        StepModel::Reply(text) => exists|r: Result<json::Json, Seq<char>>|
            text == replied(id, Ok(#[trigger] call_result_json(r))) && (r matches Err(s)
                ==> !tools::says_unknown(s)),
    }
}

/// Runs the tool call of a message. Of a tool that is listed it is never said that it is
/// not there.
pub fn handle_tools_call(state: &mut ProtocolState, id: Option<Value>, params: &Value) -> (r: Step)
    requires
        runtime::well_formed(old(state).core@),
        runtime::room(old(state).core@, calls::call_room(old(state).core@)),
    ensures
        runtime::well_formed(final(state).core@),
        final(state).client_id@ == old(state).client_id@,
        tool_called(
            old(state).core@,
            old(state).client_id@,
            id_view(id),
            json::value_json(*params),
            final(state).core@,
            r@,
        ),
        called_name(json::value_json(*params)) matches Some(name) ==> (tools::listed(name)
            ==> answered_as_known(id_view(id), r@)),
{
    let name = match text_member(params, "name") {
        Some(name) => name,
        None => {
            return Step::Reply(reply(id, Err((-32602, owned("tools/call missing `name`")))));
        },
    };
    proof {
        tools::law_listed_tools_are_found(name@, Tool::BufferList, 0, 0);
    }
    let tool = match find_tool(&name) {
        Some(tool) => tool,
        None => {
            let refusal = call_tool_result(Err(join2("unknown tool: ", &name)));
            return Step::Reply(reply(id, Ok(refusal)));
        },
    };
    let arguments = member_value(params, "arguments");
    let a = match read_args(&arguments, &tool.fields()) {
        Ok(a) => a,
        Err(e) => {
            let ghost said = Err::<json::Json, Seq<char>>(e@);
            let r = Step::Reply(reply(id, Ok(call_tool_result(Err(e)))));
            assert(r@ == StepModel::Reply(replied(id_view(id), Ok(call_result_json(said)))));
            return r;
        },
    };
    let out = state.dispatch_tool(tool, &a);
    assert(calls::calls(
        old(state).core@,
        old(state).client_id@,
        tool,
        args::arg_views(a@),
        state.core@,
        out@,
    ));
    proof {
        laws::law_tools_that_run_are_known(
            old(state).core@,
            old(state).client_id@,
            tool,
            args::arg_views(a@),
            state.core@,
            out@,
        );
    }
    match out {
        Outcome::Done(r) => Step::Reply(reply(id, Ok(call_tool_result(r)))),
        Outcome::Ask(effect) => {
            let kept = keep(tool, &a);
            Step::Ask(effect, PendingCall { id, tool, kept })
        },
    }
}

/// Processes one message.
pub fn handle_request(state: &mut ProtocolState, request: &Value) -> (r: Step)
    requires
        runtime::well_formed(old(state).core@),
        runtime::room(old(state).core@, calls::call_room(old(state).core@)),
    ensures
        runtime::well_formed(final(state).core@),
        final(state).client_id@ == old(state).client_id@,
        handled(
            old(state).core@,
            old(state).client_id@,
            json::value_json(*request),
            final(state).core@,
            r@,
        ),
{
    let id = get(request, "id");
    let method = match text_member(request, "method") {
        Some(m) => m,
        None => owned(""),
    };
    if same(&method, "initialize") {
        Step::Reply(reply(id, Ok(initialize_result())))
    } else if same(&method, "notifications/initialized") || same(&method, "initialized") {
        Step::Reply(None)
    } else if same(&method, "tools/list") {
        Step::Reply(reply(id, Ok(tools_list_result())))
    } else if same(&method, "tools/call") {
        let params = member_value(request, "params");
        handle_tools_call(state, id, &params)
    } else if same(&method, "ping") {
        Step::Reply(reply(id, Ok(obj0())))
    } else if same(&method, "resources/list") || same(&method, "prompts/list") {
        Step::Reply(reply(id, Ok(nothing_hosted())))
    } else {
        Step::Reply(reply(id, Err((-32601, join2("method not found: ", &method)))))
    }
}

/// Processes one line: a message, or what is no JSON.
pub fn handle_line(state: &mut ProtocolState, line: &str) -> (r: Step)
    requires
        runtime::well_formed(old(state).core@),
        runtime::room(old(state).core@, calls::call_room(old(state).core@)),
    ensures
        runtime::well_formed(final(state).core@),
        final(state).client_id@ == old(state).client_id@,
        match json::parsed_json(line@) {
            Some(j) => handled(
                old(state).core@,
                old(state).client_id@,
                j,
                final(state).core@,
                r@,
            ),
            None => {
                &&& final(state).core@ == old(state).core@
                &&& r@ == StepModel::Reply(
                    Some(json::json_text(failure_json(json::Json::Null, -32700, "parse error"@))),
                )
            },
        },
{
    match parse_value(line) {
        Some(request) => handle_request(state, &request),
        None => Step::Reply(Some(error_response(null(), -32700, "parse error"))),
    }
}

/// Ends a call with the answer to its effect, and gives the reply.
pub fn finish_call(state: &mut ProtocolState, call: PendingCall, answer: Answer) -> (r: Option<
    String,
>)
    requires
        runtime::well_formed(old(state).core@),
        runtime::room(old(state).core@, calls::answer_room(answer)),
    ensures
        runtime::well_formed(final(state).core@),
        final(state).client_id@ == old(state).client_id@,
        exists|out: Result<json::Json, Seq<char>>| #[trigger]
            calls::resumes(
                old(state).core@,
                call.tool,
                call.kept@,
                answer,
                final(state).core@,
                out,
            ) && reply_view(r) == replied(id_view(call.id), Ok(call_result_json(out))),
{
    let out = state.resume_tool(call.tool, call.kept, answer);
    assert(calls::resumes(
        old(state).core@,
        call.tool,
        call.kept@,
        answer,
        state.core@,
        calls::result_view(out),
    ));
    reply(call.id, Ok(call_tool_result(out)))
}

/// A message without an id is never replied to, whatever it asks for.
pub proof fn law_notifications_get_no_reply(
    m: runtime::CoreModel,
    client: Seq<char>,
    j: json::Json,
    after: runtime::CoreModel,
    step: StepModel,
)
    requires
        handled(m, client, j, after, step),
        json::member(j, "id"@) is None,
    ensures
        match step {
            StepModel::Reply(r) => r is None,
            StepModel::Ask { id, .. } => id is None,
        },
{
}

/// A message with an id is replied to, now or once its effect is answered; the one
/// exception is the word that the client is ready.
pub proof fn law_requests_get_a_reply(
    m: runtime::CoreModel,
    client: Seq<char>,
    j: json::Json,
    after: runtime::CoreModel,
    step: StepModel,
)
    requires
        handled(m, client, j, after, step),
        json::member(j, "id"@) is Some,
        method_of(j) != "notifications/initialized"@,
        method_of(j) != "initialized"@,
    ensures
        match step {
            StepModel::Reply(r) => r is Some,
            StepModel::Ask { id, .. } => id == json::member(j, "id"@),
        },
{
}

/// Only a tool call changes anything.
pub proof fn law_only_tools_change_state(
    m: runtime::CoreModel,
    client: Seq<char>,
    j: json::Json,
    after: runtime::CoreModel,
    step: StepModel,
)
    requires
        handled(m, client, j, after, step),
        method_of(j) != "tools/call"@,
    ensures
        after == m,
        step is Reply,
{
}

} // verus!
