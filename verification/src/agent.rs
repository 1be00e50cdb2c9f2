//! The agent: it sends the conversation to the language model, streams the
//! answer back, runs the tools that the model calls and sends their results,
//! until the model answers without calling a tool.
//!
//! The agent decides; whoever drives it does the waiting and the talking.
//! `Agent::run` starts a run and names the first thing to do; each
//! `AgentRun::step` takes what came of it and names the next.
use vstd::prelude::*;
use crate::json::{Json, JsonV, owned, lemma_deep_entries_ext, lemma_deep_seq_ext};
use crate::models::{
    FunctionCall, FunctionCallV, InputEvent, InputEventV, Message, MessageV, OutputEvent,
    OutputEventV, ToolCall, ToolCallV, copy_messages, messages_view, message_json, object2, object3,
    outputs_view, tool_calls_view,
};
use crate::retry::{RetryDecision, RetryPolicy, after_failure_spec};
use crate::stream::{
    AccumV, ToolCallAccum, accums_view, apply_parsed_payloads, apply_payloads, chunk_payloads,
    chunk_payloads_spec, parsed_view, payloads_fit, payloads_fit_check,
};
use crate::text::views;

verus! {

/// A tool as the language model is told of it.
#[derive(Debug, PartialEq)]
pub struct ToolSpec {
    pub name: String,
    pub description: String,
    /// The JSON schema of the tool's arguments.
    pub parameters: Json,
}

pub struct ToolSpecV {
    pub name: Seq<char>,
    pub description: Seq<char>,
    pub parameters: JsonV,
}

impl ToolSpec {
    pub open spec fn view_of(self) -> ToolSpecV {
        ToolSpecV { name: self.name@, description: self.description@, parameters: self.parameters.deep() }
    }

    pub fn duplicate(&self) -> (r: ToolSpec)
        ensures
            r.view_of() == self.view_of(),
    {
        ToolSpec {
            name: self.name.clone(),
            description: self.description.clone(),
            parameters: self.parameters.duplicate(),
        }
    }
}

pub open spec fn tool_specs_view(s: Seq<ToolSpec>) -> Seq<ToolSpecV> {
    Seq::new(s.len(), |i: int| s[i].view_of())
}

/// A tool as the chat completion API reads it.
pub open spec fn tool_json(t: ToolSpecV) -> JsonV {
    JsonV::Object(
        seq![
            ("type"@, JsonV::Str("function"@)),
            (
                "function"@,
                JsonV::Object(
                    seq![
                        ("name"@, JsonV::Str(t.name)),
                        ("description"@, JsonV::Str(t.description)),
                        ("parameters"@, t.parameters),
                    ],
                ),
            ),
        ],
    )
}

/// The body of a chat completion request: the model, the conversation, a
/// request to stream, and the tools where there are any.
pub open spec fn request_body(model: Seq<char>, history: Seq<MessageV>, tools: Seq<ToolSpecV>) -> JsonV {
    let base = seq![
        ("model"@, JsonV::Str(model)),
        ("messages"@, JsonV::Array(Seq::new(history.len(), |i: int| message_json(history[i])))),
        ("stream"@, JsonV::Bool(true)),
    ];
    if tools.len() > 0 {
        JsonV::Object(
            base.push(("tools"@, JsonV::Array(Seq::new(tools.len(), |i: int| tool_json(tools[i]))))),
        )
    } else {
        JsonV::Object(base)
    }
}

pub fn tool_to_json(t: &ToolSpec) -> (r: Json)
    ensures
        r.deep() == tool_json(t.view_of()),
{
    let f = object3(
        "name",
        Json::Str(t.name.clone()),
        "description",
        Json::Str(t.description.clone()),
        "parameters",
        t.parameters.duplicate(),
    );
    object2("type", Json::string("function"), "function", f)
}

/// The request body for a conversation (see `request_body`).
pub fn build_request_body(model: &String, history: &Vec<Message>, tools: &Vec<ToolSpec>) -> (r: Json)
    ensures
        r.deep() == request_body(model@, messages_view(history@), tool_specs_view(tools@)),
{
    let mut msgs: Vec<Json> = Vec::new();
    for i in 0..history.len()
        invariant
            msgs@.len() == i,
            forall|k: int| 0 <= k < i ==> (#[trigger] msgs@[k]).deep() == message_json(history@[k]@),
    {
        msgs.push(history[i].to_json());
    }
    let ghost hv = messages_view(history@);
    proof {
        lemma_deep_seq_ext(msgs@, Seq::new(hv.len(), |i: int| message_json(hv[i])));
    }
    let mut es: Vec<(String, Json)> = Vec::new();
    let ghost mv = Json::Array(msgs).deep();
    es.push((owned("model"), Json::Str(model.clone())));
    es.push((owned("messages"), Json::Array(msgs)));
    es.push((owned("stream"), Json::Bool(true)));
    let ghost base = seq![
        ("model"@, JsonV::Str(model@)),
        ("messages"@, JsonV::Array(Seq::new(hv.len(), |i: int| message_json(hv[i])))),
        ("stream"@, JsonV::Bool(true)),
    ];
    if tools.len() > 0 {
        let mut ts: Vec<Json> = Vec::new();
        for i in 0..tools.len()
            invariant
                ts@.len() == i,
                forall|k: int| 0 <= k < i ==> (#[trigger] ts@[k]).deep() == tool_json(tools@[k].view_of()),
        {
            ts.push(tool_to_json(&tools[i]));
        }
        let ghost tv = tool_specs_view(tools@);
        proof {
            lemma_deep_seq_ext(ts@, Seq::new(tv.len(), |i: int| tool_json(tv[i])));
        }
        es.push((owned("tools"), Json::Array(ts)));
        proof {
            lemma_deep_entries_ext(
                es@,
                base.push(("tools"@, JsonV::Array(Seq::new(tv.len(), |i: int| tool_json(tv[i]))))),
            );
        }
    } else {
        proof {
            lemma_deep_entries_ext(es@, base);
        }
    }
    Json::Object(es)
}

// ---------------------------------------------------------------------------
// The messages the agent adds to the conversation.
pub open spec fn user_message(text: Seq<char>) -> MessageV {
    MessageV { role: "user"@, content: Some(text), tool_calls: None, tool_call_id: None }
}

/// The model's turn: its text, where it gave any, and the calls it asked for.
pub open spec fn assistant_message(content: Seq<char>, calls: Seq<ToolCallV>) -> MessageV {
    MessageV {
        role: "assistant"@,
        content: if content.len() == 0 {
            None
        } else {
            Some(content)
        },
        tool_calls: Some(calls),
        tool_call_id: None,
    }
}

/// The result of the call with id `id`.
pub open spec fn tool_message(id: Seq<char>, result: Seq<char>) -> MessageV {
    MessageV { role: "tool"@, content: Some(result), tool_calls: None, tool_call_id: Some(id) }
}

/// The call that an accumulated delta stands for (an empty id where it got none).
pub open spec fn accum_call(a: AccumV) -> ToolCallV {
    ToolCallV {
        id: match a.id {
            Some(s) => s,
            None => Seq::empty(),
        },
        kind: "function"@,
        function: FunctionCallV { name: a.name, arguments: a.arguments },
    }
}

pub open spec fn accum_calls(acc: Seq<AccumV>) -> Seq<ToolCallV> {
    Seq::new(acc.len(), |i: int| accum_call(acc[i]))
}

pub open spec fn api_error_text(status: Seq<char>) -> Seq<char> {
    "API Error: "@ + status + ". Retrying..."@
}

pub open spec fn network_error_text(error: Seq<char>) -> Seq<char> {
    "Network Error: "@ + error + ". Retrying..."@
}

pub open spec fn max_retries_text() -> Seq<char> {
    "Max retries reached. Stopping."@
}

pub open spec fn tool_error_text(error: Seq<char>) -> Seq<char> {
    "Error executing tool: "@ + error
}

pub open spec fn unknown_tool_text(name: Seq<char>) -> Seq<char> {
    "Unknown tool: "@ + name
}

/// The first tool at or after position `i` whose name is `name`.
pub open spec fn find_tool_from(tools: Seq<ToolSpecV>, name: Seq<char>, i: nat) -> Option<nat>
    decreases tools.len() - i,
{
    if i >= tools.len() {
        None
    } else if tools[i as int].name == name {
        Some(i)
    } else {
        find_tool_from(tools, name, i + 1)
    }
}

/// The first tool whose name is `name`.
pub open spec fn find_tool(tools: Seq<ToolSpecV>, name: Seq<char>) -> Option<nat> {
    find_tool_from(tools, name, 0)
}

// ---------------------------------------------------------------------------
// The run.
/// Where a run stands.
#[derive(PartialEq, Eq, Structural, Clone, Copy)]
pub enum Phase {
    /// A request is out; its response is awaited.
    AwaitingResponse,
    /// A request failed; the wait before the next one is under way.
    Waiting,
    /// The answer is streaming in; the next chunk is awaited.
    Streaming,
    /// The data of a chunk is being parsed.
    Parsing,
    /// A tool runs.
    RunningTool,
    /// The run is over.
    Finished,
}

/// What came of the last thing the agent asked for.
#[derive(Debug, PartialEq)]
pub enum AgentEvent {
    /// The response came with a success status.
    Responded,
    /// The response came with another status, shown as given.
    Rejected(String),
    /// The request could not be made; the error as shown.
    Unreachable(String),
    /// The wait is over.
    Waited,
    /// A chunk of the answer.
    Chunk(Vec<u8>),
    /// The data of the last chunk, each parsed as JSON (`None` where it is none).
    Parsed(Vec<Option<Json>>),
    /// The answer ended, or reading it failed.
    StreamEnded,
    /// The tool finished, with its result or its error as shown.
    ToolFinished(Result<String, String>),
}

/// What the agent asks for next.
#[derive(Debug, PartialEq)]
pub enum AgentAction {
    /// Send a chat completion request with this body (to the agent's
    /// `endpoint`, with its `authorization`).
    Send(Json),
    /// Wait this many seconds.
    Wait(u64),
    /// Parse each of these as JSON.
    Parse(Vec<String>),
    /// Read the next chunk of the answer.
    Read,
    /// Run the tool at this position with these arguments.
    CallTool { tool: usize, arguments: String },
    /// Stop: the run is over.
    Finish,
}

pub enum AgentEventV {
    Responded,
    Rejected(Seq<char>),
    Unreachable(Seq<char>),
    Waited,
    Chunk(Seq<u8>),
    Parsed(Seq<Option<JsonV>>),
    StreamEnded,
    ToolFinished(Result<Seq<char>, Seq<char>>),
}

pub enum AgentActionV {
    Send(JsonV),
    Wait(u64),
    Parse(Seq<Seq<char>>),
    Read,
    CallTool { tool: nat, arguments: Seq<char> },
    Finish,
}

impl View for AgentEvent {
    type V = AgentEventV;

    open spec fn view(&self) -> AgentEventV {
        match self {
            AgentEvent::Responded => AgentEventV::Responded,
            AgentEvent::Rejected(s) => AgentEventV::Rejected(s@),
            AgentEvent::Unreachable(s) => AgentEventV::Unreachable(s@),
            AgentEvent::Waited => AgentEventV::Waited,
            AgentEvent::Chunk(b) => AgentEventV::Chunk(b@),
            AgentEvent::Parsed(ps) => AgentEventV::Parsed(parsed_view(ps@)),
            AgentEvent::StreamEnded => AgentEventV::StreamEnded,
            AgentEvent::ToolFinished(r) => AgentEventV::ToolFinished(
                match r {
                    Ok(s) => Ok(s@),
                    Err(e) => Err(e@),
                },
            ),
        }
    }
}

impl View for AgentAction {
    type V = AgentActionV;

    open spec fn view(&self) -> AgentActionV {
        match self {
            AgentAction::Send(b) => AgentActionV::Send(b.deep()),
            AgentAction::Wait(s) => AgentActionV::Wait(*s),
            AgentAction::Parse(ps) => AgentActionV::Parse(views(ps@)),
            AgentAction::Read => AgentActionV::Read,
            AgentAction::CallTool { tool, arguments } => AgentActionV::CallTool {
                tool: *tool as nat,
                arguments: arguments@,
            },
            AgentAction::Finish => AgentActionV::Finish,
        }
    }
}

/// The state of a run, as values.
pub struct RunV {
    pub model: Seq<char>,
    pub tools: Seq<ToolSpecV>,
    pub history: Seq<MessageV>,
    pub phase: Phase,
    /// (retries made, seconds of the next wait) for the current request.
    pub retry: (nat, nat),
    /// The text the model streamed in this round.
    pub content: Seq<char>,
    /// The tool calls the model's deltas assembled in this round.
    pub accum: Seq<AccumV>,
    /// The calls being run, and the position of the one due.
    pub calls: Seq<ToolCallV>,
    pub next_call: nat,
}

/// The agent: the model it talks to, the tools it offers, and the
/// conversation that each run starts from.
pub struct Agent {
    api_key: String,
    model: String,
    tools: Vec<ToolSpec>,
    history: Vec<Message>,
}

/// One run of the agent on one input.
pub struct AgentRun {
    model: String,
    tools: Vec<ToolSpec>,
    history: Vec<Message>,
    phase: Phase,
    retry: RetryPolicy,
    content: String,
    accum: Vec<ToolCallAccum>,
    calls: Vec<ToolCall>,
    next_call: usize,
}

impl View for AgentRun {
    type V = RunV;

    closed spec fn view(&self) -> RunV {
        RunV {
            model: self.model@,
            tools: tool_specs_view(self.tools@),
            history: messages_view(self.history@),
            phase: self.phase,
            retry: self.retry@,
            content: self.content@,
            accum: accums_view(self.accum@),
            calls: tool_calls_view(self.calls@),
            next_call: self.next_call as nat,
        }
    }
}

// ---------------------------------------------------------------------------
// The transitions.
/// The state that starts a new round: a fresh retry policy, nothing streamed.
pub open spec fn new_round(s: RunV) -> RunV {
    RunV {
        phase: Phase::AwaitingResponse,
        retry: (0, 1),
        content: Seq::empty(),
        accum: Seq::empty(),
        calls: Seq::empty(),
        next_call: 0,
        ..s
    }
}

/// Goes through the calls from `next_call` on: each is announced; a call of
/// an unknown tool is answered with an error at once; the first call of a
/// known tool is run. When no call is left, the conversation is sent again.
pub open spec fn advance(s: RunV, outs: Seq<OutputEventV>) -> (RunV, Seq<OutputEventV>, AgentActionV)
    decreases s.calls.len() - s.next_call,
{
    if s.next_call >= s.calls.len() {
        let s2 = new_round(s);
        (s2, outs, AgentActionV::Send(request_body(s2.model, s2.history, s2.tools)))
    } else {
        let c = s.calls[s.next_call as int];
        let o1 = outs.push(
            OutputEventV::OutputToolCall {
                id: c.id,
                name: c.function.name,
                arguments: c.function.arguments,
            },
        );
        match find_tool(s.tools, c.function.name) {
            Some(i) => (
                RunV { phase: Phase::RunningTool, ..s },
                o1,
                AgentActionV::CallTool { tool: i, arguments: c.function.arguments },
            ),
            None => {
                let m = unknown_tool_text(c.function.name);
                advance(
                    RunV { history: s.history.push(tool_message(c.id, m)), next_call: s.next_call + 1, ..s },
                    o1.push(OutputEventV::Error(m)),
                )
            },
        }
    }
}

/// A request failed with the error `m`: it is reported, then the request is
/// tried again after a wait, or, after the last retry, the run stops.
pub open spec fn request_failed(s: RunV, m: Seq<char>) -> (RunV, Seq<OutputEventV>, AgentActionV) {
    let (p2, d) = after_failure_spec(s.retry);
    match d {
        RetryDecision::GiveUp => (
            RunV { phase: Phase::Finished, ..s },
            seq![OutputEventV::Error(m), OutputEventV::Error(max_retries_text())],
            AgentActionV::Finish,
        ),
        RetryDecision::Wait(w) => (
            RunV { phase: Phase::Waiting, retry: p2, ..s },
            seq![OutputEventV::Error(m)],
            AgentActionV::Wait(w),
        ),
    }
}

/// Which events a run takes in which phase.
pub open spec fn accepts(s: RunV, e: AgentEventV) -> bool {
    match e {
        AgentEventV::Responded | AgentEventV::Rejected(_) | AgentEventV::Unreachable(_) => s.phase
            == Phase::AwaitingResponse,
        AgentEventV::Waited => s.phase == Phase::Waiting,
        AgentEventV::Chunk(_) | AgentEventV::StreamEnded => s.phase == Phase::Streaming,
        AgentEventV::Parsed(ps) => s.phase == Phase::Parsing && payloads_fit(s.accum.len(), ps),
        AgentEventV::ToolFinished(_) => s.phase == Phase::RunningTool,
    }
}

/// The next state, what is reported, and what to do next.
pub open spec fn step_spec(s: RunV, e: AgentEventV) -> (RunV, Seq<OutputEventV>, AgentActionV) {
    match e {
        AgentEventV::Responded => (RunV { phase: Phase::Streaming, ..s }, Seq::empty(), AgentActionV::Read),
        AgentEventV::Rejected(status) => request_failed(s, api_error_text(status)),
        AgentEventV::Unreachable(err) => request_failed(s, network_error_text(err)),
        AgentEventV::Waited => (
            RunV { phase: Phase::AwaitingResponse, ..s },
            Seq::empty(),
            AgentActionV::Send(request_body(s.model, s.history, s.tools)),
        ),
        AgentEventV::Chunk(bytes) => (
            RunV { phase: Phase::Parsing, ..s },
            Seq::empty(),
            AgentActionV::Parse(chunk_payloads_spec(bytes)),
        ),
        AgentEventV::Parsed(ps) => {
            let (c, a, o) = apply_payloads(s.content, s.accum, ps);
            (RunV { phase: Phase::Streaming, content: c, accum: a, ..s }, o, AgentActionV::Read)
        },
        AgentEventV::StreamEnded => if s.accum.len() == 0 {
            (RunV { phase: Phase::Finished, ..s }, Seq::empty(), AgentActionV::Finish)
        } else {
            let calls = accum_calls(s.accum);
            advance(
                RunV {
                    history: s.history.push(assistant_message(s.content, calls)),
                    calls,
                    next_call: 0,
                    ..s
                },
                Seq::empty(),
            )
        },
        AgentEventV::ToolFinished(res) => {
            let c = s.calls[s.next_call as int];
            let (text, outs) = match res {
                Ok(t) => (t, seq![OutputEventV::OutputToolResult { id: c.id, result: t }]),
                Err(err) => (tool_error_text(err), seq![OutputEventV::Error(tool_error_text(err))]),
            };
            advance(
                RunV {
                    history: s.history.push(tool_message(c.id, text)),
                    next_call: s.next_call + 1,
                    ..s
                },
                outs,
            )
        },
    }
}

// ---------------------------------------------------------------------------
// What every state of a run keeps.
/// The messages from position `i + 1` on answer `calls`, one tool message per
/// call, in order, each with the call's id.
pub open spec fn answers(h: Seq<MessageV>, i: int, calls: Seq<ToolCallV>, n: nat) -> bool {
    &&& n <= calls.len()
    &&& i + n < h.len()
    &&& forall|j: int|
        0 <= j < n ==> (#[trigger] h[i + 1 + j]).role == "tool"@ && h[i + 1 + j].tool_call_id
            == Some(calls[j].id) && h[i + 1 + j].tool_calls is None
}

/// Every message with tool calls is followed by the answers to all of them.
pub open spec fn answered(h: Seq<MessageV>) -> bool {
    forall|i: int|
        0 <= i < h.len() && (#[trigger] h[i]).tool_calls is Some ==> answers(
            h,
            i,
            h[i].tool_calls->0,
            h[i].tool_calls->0.len(),
        )
}

/// While calls run: the conversation before the model's turn is answered,
/// the turn holds the calls, and the calls before `next_call` are answered.
pub open spec fn calls_in_progress(s: RunV) -> bool {
    let k = s.history.len() - 1 - s.next_call;
    &&& s.next_call <= s.calls.len()
    &&& 0 <= k
    &&& answered(s.history.subrange(0, k))
    &&& s.history[k].tool_calls == Some(s.calls)
    &&& answers(s.history, k, s.calls, s.next_call)
}

/// The invariant of a run.
pub open spec fn run_inv(s: RunV) -> bool {
    &&& s.retry.0 <= crate::retry::MAX_RETRIES
    &&& s.retry.1 == crate::retry::pow2(s.retry.0)
    &&& if s.phase == Phase::RunningTool {
        &&& calls_in_progress(s)
        &&& s.next_call < s.calls.len()
        &&& find_tool(s.tools, s.calls[s.next_call as int].function.name) is Some
    } else {
        answered(s.history)
    }
}

// ---------------------------------------------------------------------------
// The code.
fn concat3(a: &str, b: &str, c: &str) -> (r: String)
    ensures
        r@ == a@ + b@ + c@,
{
    let mut r = owned(a);
    r.append(b);
    r.append(c);
    r
}

fn concat2(a: &str, b: &str) -> (r: String)
    ensures
        r@ == a@ + b@,
{
    let mut r = owned(a);
    r.append(b);
    r
}

/// The position of the first tool named `name`.
pub fn find_tool_index(tools: &Vec<ToolSpec>, name: &String) -> (r: Option<usize>)
    ensures
        match r {
            Some(i) => find_tool(tool_specs_view(tools@), name@) == Some(i as nat),
            None => find_tool(tool_specs_view(tools@), name@) is None,
        },
{
    let ghost tv = tool_specs_view(tools@);
    let mut i: usize = 0;
    while i < tools.len()
        invariant
            i <= tools@.len(),
            tv == tool_specs_view(tools@),
            find_tool(tv, name@) == find_tool_from(tv, name@, i as nat),
        decreases tools@.len() - i,
    {
        if tools[i].name == *name {
            return Some(i);
        }
        i = i + 1;
    }
    None
}

fn copy_tools(v: &Vec<ToolSpec>) -> (r: Vec<ToolSpec>)
    ensures
        tool_specs_view(r@) == tool_specs_view(v@),
{
    let mut out: Vec<ToolSpec> = Vec::new();
    for i in 0..v.len()
        invariant
            out@.len() == i,
            forall|k: int| 0 <= k < i ==> (#[trigger] out@[k]).view_of() == v@[k].view_of(),
    {
        out.push(v[i].duplicate());
    }
    assert(tool_specs_view(out@) =~= tool_specs_view(v@));
    out
}

fn call_of(a: &ToolCallAccum) -> (r: ToolCall)
    ensures
        r@ == accum_call(a@),
{
    let id = match &a.id {
        Some(s) => s.clone(),
        None => String::new(),
    };
    ToolCall {
        id,
        kind: owned("function"),
        function: FunctionCall { name: a.name.clone(), arguments: a.arguments.clone() },
    }
}

/// The chat completion endpoint that requests are posted to.
pub open spec fn chat_completions_url() -> Seq<char> {
    "https://openrouter.ai/api/v1/chat/completions"@
}

/// The value of the Authorization header for `api_key`.
pub open spec fn bearer(api_key: Seq<char>) -> Seq<char> {
    "Bearer "@ + api_key
}

pub struct AgentV {
    pub api_key: Seq<char>,
    pub model: Seq<char>,
    pub tools: Seq<ToolSpecV>,
    pub history: Seq<MessageV>,
}

impl View for Agent {
    type V = AgentV;

    closed spec fn view(&self) -> AgentV {
        AgentV {
            api_key: self.api_key@,
            model: self.model@,
            tools: tool_specs_view(self.tools@),
            history: messages_view(self.history@),
        }
    }
}

impl Agent {
    /// The conversation each run starts from is complete: every call in it is answered.
    #[verifier::type_invariant]
    closed spec fn agent_inv(self) -> bool {
        answered(messages_view(self.history@))
    }

    /// An agent for `model`, offering `tools`, with no earlier conversation.
    pub fn new(api_key: String, model: String, tools: Vec<ToolSpec>) -> (r: Agent)
        ensures
            r@ == (AgentV {
                api_key: api_key@,
                model: model@,
                tools: tool_specs_view(tools@),
                history: Seq::empty(),
            }),
    {
        let r = Agent { api_key, model, tools, history: Vec::new() };
        assert(messages_view(r.history@) =~= Seq::<MessageV>::empty());
        r
    }

    /// The key that authorizes the requests.
    pub fn api_key(&self) -> (r: &String)
        ensures
            r@ == self@.api_key,
    {
        &self.api_key
    }

    /// Where every request of a run is sent.
    pub fn endpoint(&self) -> (r: &'static str)
        ensures
            r@ == chat_completions_url(),
    {
        "https://openrouter.ai/api/v1/chat/completions"
    }

    /// The Authorization header of every request of a run: the key as a
    /// bearer token.
    pub fn authorization(&self) -> (r: String)
        ensures
            r@ == bearer(self@.api_key),
    {
        let mut r = owned("Bearer ");
        r.append(self.api_key.as_str());
        r
    }

    /// Starts a run on `event`: the user's text joins the conversation, and the
    /// first request is to be sent.
    pub fn run(&self, event: InputEvent) -> (r: (AgentRun, AgentAction))
        ensures
            ({
                let h = match event@ {
                    InputEventV::UserInputEvent(t) => self@.history.push(user_message(t)),
                };
                &&& r.0@ == RunV {
                    model: self@.model,
                    tools: self@.tools,
                    history: h,
                    phase: Phase::AwaitingResponse,
                    retry: (0, 1),
                    content: Seq::empty(),
                    accum: Seq::empty(),
                    calls: Seq::empty(),
                    next_call: 0,
                }
                &&& r.1@ == AgentActionV::Send(request_body(self@.model, h, self@.tools))
            }),
            run_inv(r.0@),
    {
        proof {
            use_type_invariant(self);
        }
        let mut history = copy_messages(&self.history);
        let ghost h0 = messages_view(history@);
        match event {
            InputEvent::UserInputEvent(text) => {
                history.push(
                    Message {
                        role: owned("user"),
                        content: Some(text),
                        tool_calls: None,
                        tool_call_id: None,
                    },
                );
            },
        }
        proof {
            let hv = messages_view(history@);
            assert(hv =~= h0.push(hv[hv.len() - 1]));
            assert forall|i: int|
                0 <= i < hv.len() && (#[trigger] hv[i]).tool_calls is Some implies answers(
                hv,
                i,
                hv[i].tool_calls->0,
                hv[i].tool_calls->0.len(),
            ) by {
                assert(hv[i] == h0[i]);
                let calls = h0[i].tool_calls->0;
                assert forall|j: int| 0 <= j < calls.len() implies (#[trigger] hv[i + 1 + j]).role
                    == "tool"@ && hv[i + 1 + j].tool_call_id == Some(calls[j].id) && hv[i + 1
                    + j].tool_calls is None by {
                    assert(h0[i + 1 + j] == hv[i + 1 + j]);
                }
            }
        }
        let run = AgentRun {
            model: self.model.clone(),
            tools: copy_tools(&self.tools),
            history,
            phase: Phase::AwaitingResponse,
            retry: RetryPolicy::new(),
            content: String::new(),
            accum: Vec::new(),
            calls: Vec::new(),
            next_call: 0,
        };
        proof {
            assert(accums_view(run.accum@) =~= Seq::<AccumV>::empty());
            assert(tool_calls_view(run.calls@) =~= Seq::<ToolCallV>::empty());
            crate::retry::lemma_retry_schedule(0);
        }
        let body = build_request_body(&run.model, &run.history, &run.tools);
        (run, AgentAction::Send(body))
    }
}

impl AgentRun {
    /// Whether the run takes `event` now (see `accepts`).
    pub fn expects(&self, event: &AgentEvent) -> (r: bool)
        ensures
            r == accepts(self@, event@),
    {
        match event {
            AgentEvent::Responded | AgentEvent::Rejected(_) | AgentEvent::Unreachable(_) => self.phase
                == Phase::AwaitingResponse,
            AgentEvent::Waited => self.phase == Phase::Waiting,
            AgentEvent::Chunk(_) | AgentEvent::StreamEnded => self.phase == Phase::Streaming,
            AgentEvent::Parsed(ps) => self.phase == Phase::Parsing && payloads_fit_check(
                self.accum.len(),
                ps,
            ),
            AgentEvent::ToolFinished(_) => self.phase == Phase::RunningTool,
        }
    }

    /// Whether the run is over.
    pub fn is_finished(&self) -> (r: bool)
        ensures
            r == (self@.phase == Phase::Finished),
    {
        self.phase == Phase::Finished
    }

    fn failed(&mut self, message: String, outs: &mut Vec<OutputEvent>) -> (a: AgentAction)
        requires
            old(self).retry.wf(),
            outs@.len() == 0,
        ensures
            (final(self)@, outputs_view(final(outs)@), a@) == request_failed(old(self)@, message@),
            final(self).retry.wf(),
    {
        outs.push(OutputEvent::Error(message));
        match self.retry.after_failure() {
            RetryDecision::GiveUp => {
                outs.push(OutputEvent::Error(owned("Max retries reached. Stopping.")));
                self.phase = Phase::Finished;
                proof {
                    assert(outputs_view(outs@) =~= seq![
                        OutputEventV::Error(message@),
                        OutputEventV::Error(max_retries_text()),
                    ]);
                }
                AgentAction::Finish
            },
            RetryDecision::Wait(w) => {
                self.phase = Phase::Waiting;
                proof {
                    assert(outputs_view(outs@) =~= seq![OutputEventV::Error(message@)]);
                }
                AgentAction::Wait(w)
            },
        }
    }

    /// Goes through the remaining calls (see `advance`).
    fn advance_calls(&mut self, outs: &mut Vec<OutputEvent>) -> (a: AgentAction)
        requires
            old(self).next_call <= old(self).calls@.len(),
            old(self).retry.wf(),
        ensures
            (final(self)@, outputs_view(final(outs)@), a@) == advance(old(self)@, outputs_view(old(outs)@)),
            final(self).retry.wf(),
    {
        let ghost goal = advance(self@, outputs_view(outs@));
        loop
            invariant
                self.next_call <= self.calls@.len(),
                advance(self@, outputs_view(outs@)) == goal,
                goal == advance(old(self)@, outputs_view(old(outs)@)),
                self.retry.wf(),
            decreases self.calls@.len() - self.next_call,
        {
            let ghost s_cur = self@;
            let ghost o_cur = outputs_view(outs@);
            if self.next_call >= self.calls.len() {
                self.phase = Phase::AwaitingResponse;
                self.retry = RetryPolicy::new();
                self.content = String::new();
                self.accum = Vec::new();
                self.calls = Vec::new();
                self.next_call = 0;
                proof {
                    assert(accums_view(self.accum@) =~= Seq::<AccumV>::empty());
                    assert(tool_calls_view(self.calls@) =~= Seq::<ToolCallV>::empty());
                }
                proof {
                    assert(self@ == new_round(s_cur));
                }
                let body = build_request_body(&self.model, &self.history, &self.tools);
                return AgentAction::Send(body);
            }
            let c = self.calls[self.next_call].duplicate();
            assert(c@ == s_cur.calls[s_cur.next_call as int]);
            let ghost o0 = outputs_view(outs@);
            outs.push(
                OutputEvent::OutputToolCall {
                    id: c.id.clone(),
                    name: c.function.name.clone(),
                    arguments: c.function.arguments.clone(),
                },
            );
            proof {
                assert(outputs_view(outs@) =~= o0.push(
                    OutputEventV::OutputToolCall {
                        id: c@.id,
                        name: c@.function.name,
                        arguments: c@.function.arguments,
                    },
                ));
            }
            match find_tool_index(&self.tools, &c.function.name) {
                Some(i) => {
                    self.phase = Phase::RunningTool;
                    proof {
                        assert(self@ == RunV { phase: Phase::RunningTool, ..s_cur });
                    }
                    return AgentAction::CallTool { tool: i, arguments: c.function.arguments };
                },
                None => {
                    let m = concat2("Unknown tool: ", c.function.name.as_str());
                    let ghost hv = messages_view(self.history@);
                    self.history.push(
                        Message {
                            role: owned("tool"),
                            content: Some(m.clone()),
                            tool_calls: None,
                            tool_call_id: Some(c.id),
                        },
                    );
                    let ghost o1 = outputs_view(outs@);
                    outs.push(OutputEvent::Error(m));
                    self.next_call = self.next_call + 1;
                    proof {
                        assert(messages_view(self.history@) =~= hv.push(
                            tool_message(c@.id, unknown_tool_text(c@.function.name)),
                        ));
                        assert(outputs_view(outs@) =~= o1.push(
                            OutputEventV::Error(unknown_tool_text(c@.function.name)),
                        ));
                        assert(self@ == RunV {
                            history: s_cur.history.push(tool_message(c@.id, unknown_tool_text(c@.function.name))),
                            next_call: s_cur.next_call + 1,
                            ..s_cur
                        });
                    }
                },
            }
        }
    }

    /// Takes what came of the last action: the run moves on (see `step_spec`),
    /// reports what it has to report, and names the next action.
    pub fn step(&mut self, event: AgentEvent) -> (r: (Vec<OutputEvent>, AgentAction))
        requires
            run_inv(old(self)@),
            accepts(old(self)@, event@),
        ensures
            (final(self)@, outputs_view(r.0@), r.1@) == step_spec(old(self)@, event@),
            run_inv(final(self)@),
    {
        let ghost s0 = self@;
        let ghost e0 = event@;
        proof {
            lemma_step_keeps_inv(s0, e0);
        }
        let mut outs: Vec<OutputEvent> = Vec::new();
        proof {
            assert(outputs_view(outs@) =~= Seq::<OutputEventV>::empty());
        }
        let action = match event {
            AgentEvent::Responded => {
                self.phase = Phase::Streaming;
                AgentAction::Read
            },
            AgentEvent::Rejected(status) => {
                let m = concat3("API Error: ", status.as_str(), ". Retrying...");
                self.failed(m, &mut outs)
            },
            AgentEvent::Unreachable(err) => {
                let m = concat3("Network Error: ", err.as_str(), ". Retrying...");
                self.failed(m, &mut outs)
            },
            AgentEvent::Waited => {
                self.phase = Phase::AwaitingResponse;
                let body = build_request_body(&self.model, &self.history, &self.tools);
                AgentAction::Send(body)
            },
            AgentEvent::Chunk(bytes) => {
                self.phase = Phase::Parsing;
                AgentAction::Parse(chunk_payloads(bytes.as_slice()))
            },
            AgentEvent::Parsed(ps) => {
                apply_parsed_payloads(&mut self.content, &mut self.accum, &ps, &mut outs);
                self.phase = Phase::Streaming;
                AgentAction::Read
            },
            AgentEvent::StreamEnded => {
                if self.accum.len() == 0 {
                    self.phase = Phase::Finished;
                    AgentAction::Finish
                } else {
                    let mut calls: Vec<ToolCall> = Vec::new();
                    for i in 0..self.accum.len()
                        invariant
                            calls@.len() == i,
                            forall|k: int|
                                0 <= k < i ==> (#[trigger] calls@[k])@ == accum_call(self.accum@[k]@),
                    {
                        calls.push(call_of(&self.accum[i]));
                    }
                    proof {
                        assert(tool_calls_view(calls@) =~= accum_calls(accums_view(self.accum@)));
                    }
                    let content = if self.content.as_str().is_empty() {
                        None
                    } else {
                        Some(self.content.clone())
                    };
                    let ghost hv = messages_view(self.history@);
                    self.history.push(
                        Message {
                            role: owned("assistant"),
                            content,
                            tool_calls: Some(crate::models::copy_tool_calls(&calls)),
                            tool_call_id: None,
                        },
                    );
                    proof {
                        assert(messages_view(self.history@) =~= hv.push(
                            assistant_message(self.content@, accum_calls(accums_view(self.accum@))),
                        ));
                    }
                    self.calls = calls;
                    self.next_call = 0;
                    self.advance_calls(&mut outs)
                }
            },
            AgentEvent::ToolFinished(res) => {
                let ncalls = self.calls.len();
                assert(self.next_call < ncalls);
                let id = self.calls[self.next_call].id.clone();
                let text = match res {
                    Ok(t) => {
                        outs.push(OutputEvent::OutputToolResult { id: id.clone(), result: t.clone() });
                        proof {
                            assert(outputs_view(outs@) =~= seq![
                                OutputEventV::OutputToolResult { id: id@, result: t@ },
                            ]);
                        }
                        t
                    },
                    Err(e) => {
                        let m = concat2("Error executing tool: ", e.as_str());
                        outs.push(OutputEvent::Error(m.clone()));
                        proof {
                            assert(outputs_view(outs@) =~= seq![OutputEventV::Error(m@)]);
                        }
                        m
                    },
                };
                let ghost hv = messages_view(self.history@);
                self.history.push(
                    Message {
                        role: owned("tool"),
                        content: Some(text),
                        tool_calls: None,
                        tool_call_id: Some(id),
                    },
                );
                proof {
                    assert(messages_view(self.history@) =~= hv.push(tool_message(id@, text@)));
                }
                self.next_call = self.next_call + 1;
                self.advance_calls(&mut outs)
            },
        };
        (outs, action)
    }
}

/// A conversation whose last turn with calls has all of them answered is answered.
proof fn lemma_all_answered(h: Seq<MessageV>, k: int, calls: Seq<ToolCallV>)
    requires
        0 <= k < h.len(),
        h.len() == k + 1 + calls.len(),
        answered(h.subrange(0, k)),
        h[k].tool_calls == Some(calls),
        answers(h, k, calls, calls.len()),
    ensures
        answered(h),
{
    let pre = h.subrange(0, k);
    assert forall|i: int|
        0 <= i < h.len() && (#[trigger] h[i]).tool_calls is Some implies answers(
        h,
        i,
        h[i].tool_calls->0,
        h[i].tool_calls->0.len(),
    ) by {
        if i < k {
            assert(pre[i] == h[i]);
            let cs = h[i].tool_calls->0;
            assert(answers(pre, i, cs, cs.len()));
            assert forall|j: int| 0 <= j < cs.len() implies (#[trigger] h[i + 1 + j]).role == "tool"@
                && h[i + 1 + j].tool_call_id == Some(cs[j].id) && h[i + 1 + j].tool_calls is None by {
                assert(pre[i + 1 + j] == h[i + 1 + j]);
            }
        } else if i > k {
            assert(h[k + 1 + (i - k - 1)] == h[i]);
        }
    }
}

/// Answering the call due keeps the calls in progress.
proof fn lemma_answer_due(s: RunV, text: Seq<char>)
    requires
        calls_in_progress(s),
        s.next_call < s.calls.len(),
    ensures
        calls_in_progress(
            RunV {
                history: s.history.push(tool_message(s.calls[s.next_call as int].id, text)),
                next_call: s.next_call + 1,
                ..s
            },
        ),
{
    let k = s.history.len() - 1 - s.next_call;
    let h1 = s.history.push(tool_message(s.calls[s.next_call as int].id, text));
    assert(h1.subrange(0, k) =~= s.history.subrange(0, k));
    assert(h1[k] == s.history[k]);
    assert forall|j: int| 0 <= j < s.next_call + 1 implies (#[trigger] h1[k + 1 + j]).role == "tool"@
        && h1[k + 1 + j].tool_call_id == Some(s.calls[j].id) && h1[k + 1 + j].tool_calls is None by {
        if j < s.next_call {
            assert(h1[k + 1 + j] == s.history[k + 1 + j]);
        }
    }
}

/// Going through the calls keeps the invariant.
proof fn lemma_advance_keeps_inv(s: RunV, outs: Seq<OutputEventV>)
    requires
        calls_in_progress(s),
        s.retry.0 <= crate::retry::MAX_RETRIES,
        s.retry.1 == crate::retry::pow2(s.retry.0),
    ensures
        run_inv(advance(s, outs).0),
    decreases s.calls.len() - s.next_call,
{
    if s.next_call >= s.calls.len() {
        let k = s.history.len() - 1 - s.next_call;
        lemma_all_answered(s.history, k, s.calls);
        assert(crate::retry::pow2(0) == 1);
    } else {
        let c = s.calls[s.next_call as int];
        match find_tool(s.tools, c.function.name) {
            Some(i) => {},
            None => {
                lemma_answer_due(s, unknown_tool_text(c.function.name));
                lemma_advance_keeps_inv(
                    RunV {
                        history: s.history.push(tool_message(c.id, unknown_tool_text(c.function.name))),
                        next_call: s.next_call + 1,
                        ..s
                    },
                    outs.push(
                        OutputEventV::OutputToolCall {
                            id: c.id,
                            name: c.function.name,
                            arguments: c.function.arguments,
                        },
                    ).push(OutputEventV::Error(unknown_tool_text(c.function.name))),
                );
            },
        }
    }
}

/// Every step keeps the invariant of a run: the retry count stays within
/// its bound with the matching wait, and, outside a tool's run, the
/// conversation answers every tool call it holds, in order, with the call's id.
pub proof fn lemma_step_keeps_inv(s: RunV, e: AgentEventV)
    requires
        run_inv(s),
        accepts(s, e),
    ensures
        run_inv(step_spec(s, e).0),
{
    match e {
        AgentEventV::Rejected(_) | AgentEventV::Unreachable(_) => {
            if s.retry.0 < crate::retry::MAX_RETRIES {
                assert(crate::retry::pow2(s.retry.0 + 1) == 2 * crate::retry::pow2(s.retry.0));
            }
        },
        AgentEventV::StreamEnded => {
            if s.accum.len() > 0 {
                let calls = accum_calls(s.accum);
                let s1 = RunV {
                    history: s.history.push(assistant_message(s.content, calls)),
                    calls,
                    next_call: 0,
                    ..s
                };
                assert(s1.history.subrange(0, s.history.len() as int) =~= s.history);
                lemma_advance_keeps_inv(s1, Seq::empty());
            }
        },
        AgentEventV::ToolFinished(res) => {
            let c = s.calls[s.next_call as int];
            let (text, outs) = match res {
                Ok(t) => (t, seq![OutputEventV::OutputToolResult { id: c.id, result: t }]),
                Err(err) => (tool_error_text(err), seq![OutputEventV::Error(tool_error_text(err))]),
            };
            lemma_answer_due(s, text);
            lemma_advance_keeps_inv(
                RunV { history: s.history.push(tool_message(c.id, text)), next_call: s.next_call + 1, ..s },
                outs,
            );
        },
        _ => {},
    }
}

proof fn lemma_advance_extends_history(s: RunV, outs: Seq<OutputEventV>)
    ensures
        advance(s, outs).0.history.len() >= s.history.len(),
        advance(s, outs).0.history.subrange(0, s.history.len() as int) == s.history,
    decreases s.calls.len() - s.next_call,
{
    let r = advance(s, outs).0;
    if s.next_call >= s.calls.len() {
        assert(r.history.subrange(0, s.history.len() as int) =~= s.history);
    } else {
        let c = s.calls[s.next_call as int];
        match find_tool(s.tools, c.function.name) {
            Some(i) => {
                assert(r.history.subrange(0, s.history.len() as int) =~= s.history);
            },
            None => {
                let m = unknown_tool_text(c.function.name);
                let s1 = RunV {
                    history: s.history.push(tool_message(c.id, m)),
                    next_call: s.next_call + 1,
                    ..s
                };
                let o1 = outs.push(
                    OutputEventV::OutputToolCall {
                        id: c.id,
                        name: c.function.name,
                        arguments: c.function.arguments,
                    },
                ).push(OutputEventV::Error(m));
                lemma_advance_extends_history(s1, o1);
                assert(r.history.subrange(0, s.history.len() as int) =~= r.history.subrange(
                    0,
                    s1.history.len() as int,
                ).subrange(0, s.history.len() as int));
                assert(s1.history.subrange(0, s.history.len() as int) =~= s.history);
            },
        }
    }
}

/// The conversation only grows: a step keeps every message it had, in place.
pub proof fn lemma_step_extends_history(s: RunV, e: AgentEventV)
    requires
        run_inv(s),
        accepts(s, e),
    ensures
        step_spec(s, e).0.history.len() >= s.history.len(),
        step_spec(s, e).0.history.subrange(0, s.history.len() as int) == s.history,
{
    let r = step_spec(s, e).0;
    match e {
        AgentEventV::StreamEnded => {
            if s.accum.len() > 0 {
                let calls = accum_calls(s.accum);
                let s1 = RunV {
                    history: s.history.push(assistant_message(s.content, calls)),
                    calls,
                    next_call: 0,
                    ..s
                };
                lemma_advance_extends_history(s1, Seq::empty());
                assert(r.history.subrange(0, s.history.len() as int) =~= r.history.subrange(
                    0,
                    s1.history.len() as int,
                ).subrange(0, s.history.len() as int));
                assert(s1.history.subrange(0, s.history.len() as int) =~= s.history);
            } else {
                assert(r.history.subrange(0, s.history.len() as int) =~= s.history);
            }
        },
        AgentEventV::ToolFinished(res) => {
            let c = s.calls[s.next_call as int];
            let (text, outs) = match res {
                Ok(t) => (t, seq![OutputEventV::OutputToolResult { id: c.id, result: t }]),
                Err(err) => (tool_error_text(err), seq![OutputEventV::Error(tool_error_text(err))]),
            };
            let s1 = RunV {
                history: s.history.push(tool_message(c.id, text)),
                next_call: s.next_call + 1,
                ..s
            };
            lemma_advance_extends_history(s1, outs);
            assert(r.history.subrange(0, s.history.len() as int) =~= r.history.subrange(
                0,
                s1.history.len() as int,
            ).subrange(0, s.history.len() as int));
            assert(s1.history.subrange(0, s.history.len() as int) =~= s.history);
        },
        _ => {
            assert(r.history.subrange(0, s.history.len() as int) =~= s.history);
        },
    }
}

/// Each request that a step asks to send carries the model, the tools and
/// the whole conversation, in which every tool call is answered.
pub proof fn lemma_sent_conversation_answered(s: RunV, e: AgentEventV)
    requires
        run_inv(s),
        accepts(s, e),
        step_spec(s, e).2 is Send,
    ensures
        answered(step_spec(s, e).0.history),
        step_spec(s, e).2 == AgentActionV::Send(
            request_body(step_spec(s, e).0.model, step_spec(s, e).0.history, step_spec(s, e).0.tools),
        ),
        step_spec(s, e).0.phase == Phase::AwaitingResponse,
{
    lemma_step_keeps_inv(s, e);
    match e {
        AgentEventV::StreamEnded => {
            if s.accum.len() > 0 {
                let calls = accum_calls(s.accum);
                lemma_advance_sends(
                    RunV {
                        history: s.history.push(assistant_message(s.content, calls)),
                        calls,
                        next_call: 0,
                        ..s
                    },
                    Seq::empty(),
                );
            }
        },
        AgentEventV::ToolFinished(res) => {
            let c = s.calls[s.next_call as int];
            let (text, outs) = match res {
                Ok(t) => (t, seq![OutputEventV::OutputToolResult { id: c.id, result: t }]),
                Err(err) => (tool_error_text(err), seq![OutputEventV::Error(tool_error_text(err))]),
            };
            lemma_advance_sends(
                RunV { history: s.history.push(tool_message(c.id, text)), next_call: s.next_call + 1, ..s },
                outs,
            );
        },
        _ => {},
    }
}

proof fn lemma_advance_sends(s: RunV, outs: Seq<OutputEventV>)
    ensures
        advance(s, outs).2 is Send ==> advance(s, outs).2 == AgentActionV::Send(
            request_body(advance(s, outs).0.model, advance(s, outs).0.history, advance(s, outs).0.tools),
        ) && advance(s, outs).0.phase == Phase::AwaitingResponse,
    decreases s.calls.len() - s.next_call,
{
    if s.next_call < s.calls.len() {
        let c = s.calls[s.next_call as int];
        match find_tool(s.tools, c.function.name) {
            Some(i) => {},
            None => {
                let m = unknown_tool_text(c.function.name);
                lemma_advance_sends(
                    RunV { history: s.history.push(tool_message(c.id, m)), next_call: s.next_call + 1, ..s },
                    outs.push(
                        OutputEventV::OutputToolCall {
                            id: c.id,
                            name: c.function.name,
                            arguments: c.function.arguments,
                        },
                    ).push(OutputEventV::Error(m)),
                );
            },
        }
    }
}

/// The text a step reports as the model's is the text it adds to the
/// model's turn: what the user is shown is what the conversation records.
pub proof fn lemma_streamed_text_recorded(s: RunV, ps: Seq<Option<JsonV>>)
    requires
        accepts(s, AgentEventV::Parsed(ps)),
    ensures
        step_spec(s, AgentEventV::Parsed(ps)).0.content == s.content + crate::stream::texts_of(
            step_spec(s, AgentEventV::Parsed(ps)).1,
        ),
{
    crate::stream::lemma_payloads_text(s.content, s.accum, ps);
}

proof fn lemma_advance_keeps_outputs(s: RunV, outs: Seq<OutputEventV>)
    ensures
        advance(s, outs).1.len() >= outs.len(),
        advance(s, outs).1.subrange(0, outs.len() as int) == outs,
    decreases s.calls.len() - s.next_call,
{
    let r = advance(s, outs).1;
    if s.next_call >= s.calls.len() {
        assert(r.subrange(0, outs.len() as int) =~= outs);
    } else {
        let c = s.calls[s.next_call as int];
        let o1 = outs.push(
            OutputEventV::OutputToolCall {
                id: c.id,
                name: c.function.name,
                arguments: c.function.arguments,
            },
        );
        match find_tool(s.tools, c.function.name) {
            Some(i) => {
                assert(r.subrange(0, outs.len() as int) =~= outs);
            },
            None => {
                let m = unknown_tool_text(c.function.name);
                let o2 = o1.push(OutputEventV::Error(m));
                lemma_advance_keeps_outputs(
                    RunV { history: s.history.push(tool_message(c.id, m)), next_call: s.next_call + 1, ..s },
                    o2,
                );
                assert(r.subrange(0, outs.len() as int) =~= r.subrange(0, o2.len() as int).subrange(
                    0,
                    outs.len() as int,
                ));
                assert(o2.subrange(0, outs.len() as int) =~= outs);
            },
        }
    }
}

/// A tool that returns a result has it reported first, with the id of the
/// call it answers, and the same result joins the conversation as that
/// call's answer.
pub proof fn lemma_tool_result_reported(s: RunV, result: Seq<char>)
    requires
        run_inv(s),
        accepts(s, AgentEventV::ToolFinished(Ok(result))),
    ensures
        step_spec(s, AgentEventV::ToolFinished(Ok(result))).1.len() >= 1,
        step_spec(s, AgentEventV::ToolFinished(Ok(result))).1[0] == (OutputEventV::OutputToolResult {
            id: s.calls[s.next_call as int].id,
            result,
        }),
        step_spec(s, AgentEventV::ToolFinished(Ok(result))).0.history[s.history.len() as int]
            == tool_message(s.calls[s.next_call as int].id, result),
{
    let c = s.calls[s.next_call as int];
    let outs = seq![OutputEventV::OutputToolResult { id: c.id, result }];
    let s1 = RunV { history: s.history.push(tool_message(c.id, result)), next_call: s.next_call + 1, ..s };
    lemma_advance_keeps_outputs(s1, outs);
    lemma_advance_extends_history(s1, outs);
    assert(advance(s1, outs).1[0] == advance(s1, outs).1.subrange(0, 1)[0]);
    assert(advance(s1, outs).0.history[s.history.len() as int] == advance(s1, outs).0.history.subrange(
        0,
        s1.history.len() as int,
    )[s.history.len() as int]);
}

/// A finished run takes no event; it stops exactly when it asks to finish.
pub proof fn lemma_finish_is_final(s: RunV, e: AgentEventV)
    requires
        run_inv(s),
    ensures
        s.phase == Phase::Finished ==> !accepts(s, e),
        accepts(s, e) ==> (step_spec(s, e).2 is Finish <==> step_spec(s, e).0.phase == Phase::Finished),
{
    if accepts(s, e) {
        match e {
            AgentEventV::StreamEnded => {
                if s.accum.len() > 0 {
                    let calls = accum_calls(s.accum);
                    lemma_advance_phase(
                        RunV {
                            history: s.history.push(assistant_message(s.content, calls)),
                            calls,
                            next_call: 0,
                            ..s
                        },
                        Seq::empty(),
                    );
                }
            },
            AgentEventV::ToolFinished(res) => {
                let c = s.calls[s.next_call as int];
                let (text, outs) = match res {
                    Ok(t) => (t, seq![OutputEventV::OutputToolResult { id: c.id, result: t }]),
                    Err(err) => (tool_error_text(err), seq![OutputEventV::Error(tool_error_text(err))]),
                };
                lemma_advance_phase(
                    RunV { history: s.history.push(tool_message(c.id, text)), next_call: s.next_call + 1, ..s },
                    outs,
                );
            },
            _ => {},
        }
    }
}

proof fn lemma_advance_phase(s: RunV, outs: Seq<OutputEventV>)
    ensures
        !(advance(s, outs).2 is Finish),
        advance(s, outs).0.phase != Phase::Finished,
    decreases s.calls.len() - s.next_call,
{
    if s.next_call < s.calls.len() {
        let c = s.calls[s.next_call as int];
        match find_tool(s.tools, c.function.name) {
            Some(i) => {},
            None => {
                let m = unknown_tool_text(c.function.name);
                lemma_advance_phase(
                    RunV { history: s.history.push(tool_message(c.id, m)), next_call: s.next_call + 1, ..s },
                    outs.push(
                        OutputEventV::OutputToolCall {
                            id: c.id,
                            name: c.function.name,
                            arguments: c.function.arguments,
                        },
                    ).push(OutputEventV::Error(m)),
                );
            },
        }
    }
}


proof fn lemma_advance_send_fresh(s: RunV, outs: Seq<OutputEventV>)
    ensures
        advance(s, outs).2 is Send ==> advance(s, outs).0.retry == (0nat, 1nat) && advance(s, outs).0.phase
            == Phase::AwaitingResponse,
    decreases s.calls.len() - s.next_call,
{
    if s.next_call < s.calls.len() {
        let c = s.calls[s.next_call as int];
        match find_tool(s.tools, c.function.name) {
            Some(i) => {},
            None => {
                let m = unknown_tool_text(c.function.name);
                lemma_advance_send_fresh(
                    RunV { history: s.history.push(tool_message(c.id, m)), next_call: s.next_call + 1, ..s },
                    outs.push(
                        OutputEventV::OutputToolCall {
                            id: c.id,
                            name: c.function.name,
                            arguments: c.function.arguments,
                        },
                    ).push(OutputEventV::Error(m)),
                );
            },
        }
    }
}

/// Every round of requests retries afresh: where the end of a stream or a
/// finished tool sends the next request, no retry of it has been made yet,
/// so its first failure is reported and waited out for 1 second, and the
/// run gives up on it only after three retries of its own.
pub proof fn lemma_new_round_retries_afresh(s: RunV, e: AgentEventV, m: Seq<char>)
    requires
        e is StreamEnded || e is ToolFinished,
        step_spec(s, e).2 is Send,
    ensures
        step_spec(s, e).0.retry == (0nat, 1nat),
        step_spec(s, e).0.phase == Phase::AwaitingResponse,
        step_spec(step_spec(s, e).0, AgentEventV::Rejected(m)).1 == seq![OutputEventV::Error(api_error_text(m))],
        step_spec(step_spec(s, e).0, AgentEventV::Rejected(m)).2 == AgentActionV::Wait(1),
        step_spec(step_spec(s, e).0, AgentEventV::Rejected(m)).0.retry == (1nat, 2nat),
{
    match e {
        AgentEventV::StreamEnded => {
            if s.accum.len() != 0 {
                let calls = accum_calls(s.accum);
                lemma_advance_send_fresh(
                    RunV { history: s.history.push(assistant_message(s.content, calls)), calls, next_call: 0, ..s },
                    Seq::empty(),
                );
            }
        },
        AgentEventV::ToolFinished(res) => {
            let c = s.calls[s.next_call as int];
            let (text, outs) = match res {
                Ok(t) => (t, seq![OutputEventV::OutputToolResult { id: c.id, result: t }]),
                Err(err) => (tool_error_text(err), seq![OutputEventV::Error(tool_error_text(err))]),
            };
            lemma_advance_send_fresh(
                RunV { history: s.history.push(tool_message(c.id, text)), next_call: s.next_call + 1, ..s },
                outs,
            );
        },
        _ => {},
    }
}

/// Every request sends each tool call of the conversation with its id and
/// with its name and arguments unchanged.
pub proof fn lemma_request_carries_calls(
    model: Seq<char>,
    history: Seq<MessageV>,
    tools: Seq<ToolSpecV>,
    i: int,
    j: int,
)
    requires
        0 <= i < history.len(),
        history[i].tool_calls matches Some(cs) && 0 <= j < cs.len(),
    ensures
        ({
            let call = request_body(model, history, tools).field("messages"@).item(i).field("tool_calls"@).item(j);
            let c = history[i].tool_calls->0[j];
            &&& call.field("id"@) == JsonV::Str(c.id)
            &&& call.field("function"@).field("name"@) == JsonV::Str(c.function.name)
            &&& call.field("function"@).field("arguments"@) == JsonV::Str(c.function.arguments)
        }),
{
    reveal_strlit("model");
    reveal_strlit("messages");
    reveal_strlit("stream");
    reveal_strlit("tools");
    reveal_with_fuel(crate::json::entries_lookup, 5);
    assert("messages"@ != "model"@) by {
        assert("messages"@.len() != "model"@.len());
    }
    assert("messages"@ != "stream"@) by {
        assert("messages"@.len() != "stream"@.len());
    }
    assert("messages"@ != "tools"@) by {
        assert("messages"@.len() != "tools"@.len());
    }
    assert(request_body(model, history, tools).field("messages"@).item(i) == message_json(history[i]));
    crate::models::lemma_message_json_calls(history[i], j);
    crate::models::lemma_function_call_json_fields(history[i].tool_calls->0[j].function);
}


/// Every request names the model, asks for a streamed answer, and sends the
/// whole conversation in order: one message per message of the history, with
/// its role and its content.
pub proof fn lemma_request_sends_conversation(model: Seq<char>, history: Seq<MessageV>, tools: Seq<ToolSpecV>)
    ensures
        request_body(model, history, tools).field("model"@) == JsonV::Str(model),
        request_body(model, history, tools).field("stream"@) == JsonV::Bool(true),
        request_body(model, history, tools).field("messages"@).array_value() matches Some(ms) && ms.len()
            == history.len(),
        forall|i: int|
            0 <= i < history.len() ==> {
                let mj = #[trigger] request_body(model, history, tools).field("messages"@).item(i);
                &&& mj.field("role"@) == JsonV::Str(history[i].role)
                &&& history[i].content matches Some(t) ==> mj.field("content"@) == JsonV::Str(t)
                &&& history[i].content is None ==> mj.field("content"@) == JsonV::Null
            },
{
    reveal_strlit("model");
    reveal_strlit("messages");
    reveal_strlit("stream");
    reveal_strlit("tools");
    reveal_strlit("role");
    reveal_strlit("content");
    reveal_strlit("tool_calls");
    reveal_strlit("tool_call_id");
    reveal_with_fuel(crate::json::entries_lookup, 5);
    assert("messages"@ != "model"@) by {
        assert("messages"@.len() != "model"@.len());
    }
    assert("messages"@ != "stream"@) by {
        assert("messages"@.len() != "stream"@.len());
    }
    assert("messages"@ != "tools"@) by {
        assert("messages"@.len() != "tools"@.len());
    }
    assert("model"@ != "stream"@) by {
        assert("model"@[0] != "stream"@[0]);
    }
    assert("model"@ != "tools"@) by {
        assert("model"@[0] != "tools"@[0]);
    }
    assert("stream"@ != "tools"@) by {
        assert("stream"@.len() != "tools"@.len());
    }
    assert("role"@ != "content"@ && "role"@ != "tool_calls"@ && "role"@ != "tool_call_id"@) by {
        assert("role"@.len() != "content"@.len());
        assert("role"@.len() != "tool_calls"@.len());
        assert("role"@.len() != "tool_call_id"@.len());
    }
    assert("content"@ != "tool_calls"@ && "content"@ != "tool_call_id"@) by {
        assert("content"@.len() != "tool_calls"@.len());
        assert("content"@.len() != "tool_call_id"@.len());
    }
}

} // verus!
