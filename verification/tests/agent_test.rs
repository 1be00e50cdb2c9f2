use vibagent::agent::{Agent, AgentAction, AgentEvent};
use vibagent::json::{Json, JsonNumber};
use vibagent::models::{InputEvent, OutputEvent};
use vibagent::tools::calculator::CalculatorTool;
use vibagent::tools::tool_spec;

fn s(x: &str) -> Json {
    Json::Str(x.to_string())
}

fn obj(entries: Vec<(&str, Json)>) -> Json {
    Json::Object(entries.into_iter().map(|(k, v)| (k.to_string(), v)).collect())
}

fn index(i: u64) -> Json {
    Json::Number(JsonNumber { text: i.to_string(), as_u64: Some(i) })
}

fn delta(d: Json) -> Option<Json> {
    Some(obj(vec![("choices", Json::Array(vec![obj(vec![("delta", d)])]))]))
}

fn agent() -> Agent {
    let calc = CalculatorTool;
    Agent::new(
        "key".to_string(),
        "model-x".to_string(),
        vec![tool_spec(calc.name(), calc.description(), calc.input_schema())],
    )
}

fn messages(body: &Json) -> &Vec<Json> {
    body.get("messages").and_then(|m| m.as_array()).unwrap()
}

#[test]
fn plain_answer_streams_text_and_finishes() {
    let a = agent();
    assert_eq!(a.api_key(), "key");
    let (mut run, action) = a.run(InputEvent::UserInputEvent("hi".to_string()));
    match action {
        AgentAction::Send(body) => {
            assert_eq!(body.get("model").and_then(|m| m.as_str()), Some("model-x"));
            assert_eq!(body.get("stream"), Some(&Json::Bool(true)));
            let msgs = messages(&body);
            assert_eq!(msgs.len(), 1);
            assert_eq!(msgs[0].get("role").and_then(|r| r.as_str()), Some("user"));
            assert_eq!(msgs[0].get("content").and_then(|r| r.as_str()), Some("hi"));
            assert_eq!(msgs[0].get("tool_calls"), Some(&Json::Null));
            let tools = body.get("tools").and_then(|t| t.as_array()).unwrap();
            assert_eq!(tools[0].get("function").and_then(|f| f.get("name")).and_then(|n| n.as_str()), Some("calculator"));
        }
        other => panic!("unexpected {:?}", other),
    }
    assert_eq!(run.step(AgentEvent::Responded), (vec![], AgentAction::Read));
    let (outs, action) = run.step(AgentEvent::Chunk(b"data: {}\n\ndata: [DONE]\n".to_vec()));
    assert!(outs.is_empty());
    assert_eq!(action, AgentAction::Parse(vec!["{}".to_string()]));
    let parsed = vec![delta(obj(vec![("content", s("Hello"))])), None];
    assert!(run.expects(&AgentEvent::Parsed(vec![])));
    let (outs, action) = run.step(AgentEvent::Parsed(parsed));
    assert_eq!(outs, vec![OutputEvent::OutputText("Hello".to_string())]);
    assert_eq!(action, AgentAction::Read);
    assert_eq!(run.step(AgentEvent::StreamEnded), (vec![], AgentAction::Finish));
    assert!(run.is_finished());
    assert!(!run.expects(&AgentEvent::Responded));
}

#[test]
fn tool_call_is_assembled_run_and_answered() {
    let (mut run, _) = agent().run(InputEvent::UserInputEvent("2+2?".to_string()));
    run.step(AgentEvent::Responded);
    run.step(AgentEvent::Chunk(b"data: x\n".to_vec()));
    let first = delta(obj(vec![(
        "tool_calls",
        Json::Array(vec![obj(vec![
            ("index", index(0)),
            ("id", s("call_1")),
            ("function", obj(vec![("name", s("calculator")), ("arguments", s("{\"expression\":"))])),
        ])]),
    )]));
    let second = delta(obj(vec![(
        "tool_calls",
        Json::Array(vec![obj(vec![("index", index(0)), ("function", obj(vec![("arguments", s("\"2+2\"}"))]))])]),
    )]));
    let (outs, _) = run.step(AgentEvent::Parsed(vec![first, second]));
    assert_eq!(
        outs,
        vec![
            OutputEvent::OutputToolCallDelta("{\"expression\":".to_string()),
            OutputEvent::OutputToolCallDelta("\"2+2\"}".to_string()),
        ]
    );
    let (outs, action) = run.step(AgentEvent::StreamEnded);
    assert_eq!(
        outs,
        vec![OutputEvent::OutputToolCall {
            id: "call_1".to_string(),
            name: "calculator".to_string(),
            arguments: "{\"expression\":\"2+2\"}".to_string(),
        }]
    );
    assert_eq!(action, AgentAction::CallTool { tool: 0, arguments: "{\"expression\":\"2+2\"}".to_string() });
    let (outs, action) = run.step(AgentEvent::ToolFinished(Ok("4".to_string())));
    assert_eq!(outs, vec![OutputEvent::OutputToolResult { id: "call_1".to_string(), result: "4".to_string() }]);
    match action {
        AgentAction::Send(body) => {
            let msgs = messages(&body);
            assert_eq!(msgs.len(), 3);
            assert_eq!(msgs[1].get("role").and_then(|r| r.as_str()), Some("assistant"));
            assert_eq!(msgs[1].get("content"), Some(&Json::Null));
            let calls = msgs[1].get("tool_calls").and_then(|c| c.as_array()).unwrap();
            assert_eq!(calls[0].get("id").and_then(|r| r.as_str()), Some("call_1"));
            assert_eq!(calls[0].get("type").and_then(|r| r.as_str()), Some("function"));
            assert_eq!(msgs[2].get("role").and_then(|r| r.as_str()), Some("tool"));
            assert_eq!(msgs[2].get("content").and_then(|r| r.as_str()), Some("4"));
            assert_eq!(msgs[2].get("tool_call_id").and_then(|r| r.as_str()), Some("call_1"));
        }
        other => panic!("unexpected {:?}", other),
    }
}

#[test]
fn unknown_tool_and_tool_error_are_reported() {
    let (mut run, _) = agent().run(InputEvent::UserInputEvent("go".to_string()));
    run.step(AgentEvent::Responded);
    run.step(AgentEvent::Chunk(b"data: x\n".to_vec()));
    let d = delta(obj(vec![(
        "tool_calls",
        Json::Array(vec![
            obj(vec![("index", index(0)), ("id", s("a")), ("function", obj(vec![("name", s("nope"))]))]),
            obj(vec![("index", index(1)), ("id", s("b")), ("function", obj(vec![("name", s("calculator"))]))]),
        ]),
    )]));
    run.step(AgentEvent::Parsed(vec![d]));
    let (outs, action) = run.step(AgentEvent::StreamEnded);
    assert_eq!(
        outs,
        vec![
            OutputEvent::OutputToolCall { id: "a".to_string(), name: "nope".to_string(), arguments: String::new() },
            OutputEvent::Error("Unknown tool: nope".to_string()),
            OutputEvent::OutputToolCall { id: "b".to_string(), name: "calculator".to_string(), arguments: String::new() },
        ]
    );
    assert_eq!(action, AgentAction::CallTool { tool: 0, arguments: String::new() });
    let (outs, action) = run.step(AgentEvent::ToolFinished(Err("Division by zero".to_string())));
    assert_eq!(outs, vec![OutputEvent::Error("Error executing tool: Division by zero".to_string())]);
    match action {
        AgentAction::Send(body) => {
            let msgs = messages(&body);
            assert_eq!(msgs.len(), 4);
            assert_eq!(msgs[2].get("content").and_then(|r| r.as_str()), Some("Unknown tool: nope"));
            assert_eq!(msgs[3].get("content").and_then(|r| r.as_str()), Some("Error executing tool: Division by zero"));
        }
        other => panic!("unexpected {:?}", other),
    }
}

#[test]
fn failed_requests_are_retried_three_times() {
    let (mut run, _) = agent().run(InputEvent::UserInputEvent("hi".to_string()));
    for wait in [1u64, 2, 4] {
        let (outs, action) = run.step(AgentEvent::Rejected("500 Internal Server Error".to_string()));
        assert_eq!(outs, vec![OutputEvent::Error("API Error: 500 Internal Server Error. Retrying...".to_string())]);
        assert_eq!(action, AgentAction::Wait(wait));
        let (_, action) = run.step(AgentEvent::Waited);
        assert!(matches!(action, AgentAction::Send(_)));
    }
    let (outs, action) = run.step(AgentEvent::Unreachable("timeout".to_string()));
    assert_eq!(
        outs,
        vec![
            OutputEvent::Error("Network Error: timeout. Retrying...".to_string()),
            OutputEvent::Error("Max retries reached. Stopping.".to_string()),
        ]
    );
    assert_eq!(action, AgentAction::Finish);
}

#[test]
fn delta_past_the_end_is_not_taken() {
    let (mut run, _) = agent().run(InputEvent::UserInputEvent("hi".to_string()));
    run.step(AgentEvent::Responded);
    run.step(AgentEvent::Chunk(b"data: x\n".to_vec()));
    let d = delta(obj(vec![("tool_calls", Json::Array(vec![obj(vec![("index", index(2))])]))]));
    assert!(!run.expects(&AgentEvent::Parsed(vec![d])));
}

#[test]
fn streamed_text_is_recorded_as_the_models_turn() {
    let (mut run, _) = agent().run(InputEvent::UserInputEvent("go".to_string()));
    run.step(AgentEvent::Responded);
    run.step(AgentEvent::Chunk(b"data: x\n".to_vec()));
    let call = delta(obj(vec![
        ("content", s("lo")),
        ("tool_calls", Json::Array(vec![obj(vec![("id", s("c")), ("function", obj(vec![("name", s("calculator"))]))])])),
    ]));
    let (outs, _) = run.step(AgentEvent::Parsed(vec![delta(obj(vec![("content", s("Hel"))])), call]));
    assert_eq!(outs, vec![OutputEvent::OutputText("Hel".to_string()), OutputEvent::OutputText("lo".to_string())]);
    run.step(AgentEvent::StreamEnded);
    match run.step(AgentEvent::ToolFinished(Ok("ok".to_string()))).1 {
        AgentAction::Send(body) => {
            let msgs = messages(&body);
            assert_eq!(msgs[0].get("content").and_then(|c| c.as_str()), Some("go"));
            assert_eq!(msgs[1].get("content").and_then(|c| c.as_str()), Some("Hello"));
        }
        other => panic!("unexpected {:?}", other),
    }
}

#[test]
fn requests_go_to_the_chat_endpoint_with_the_key_as_bearer_token() {
    let a = agent();
    assert_eq!(a.endpoint(), "https://openrouter.ai/api/v1/chat/completions");
    assert_eq!(a.authorization(), "Bearer key");
}
