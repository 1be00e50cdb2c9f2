//! The messages of a conversation and the events that go in and out of the agent.
use vstd::prelude::*;
use crate::json::{Json, JsonV, owned, lemma_deep_entries_ext, lemma_deep_seq_ext};

verus! {

/// What the user sends to the agent.
#[derive(Debug, PartialEq)]
pub enum InputEvent {
    UserInputEvent(String),
}

/// What the agent reports while it runs.
#[derive(Debug, PartialEq)]
pub enum OutputEvent {
    OutputText(String),
    OutputToolCall { id: String, name: String, arguments: String },
    OutputToolCallDelta(String),
    /// The result of a tool that ran, with the id of the call it answers.
    OutputToolResult { id: String, result: String },
    Error(String),
}

/// One message of the conversation with the language model.
#[derive(Debug, PartialEq)]
pub struct Message {
    pub role: String,
    pub content: Option<String>,
    pub tool_calls: Option<Vec<ToolCall>>,
    /// The call that a tool result message answers.
    pub tool_call_id: Option<String>,
}

/// A call of a tool that the model asks for.
#[derive(Debug, PartialEq)]
pub struct ToolCall {
    pub id: String,
    /// The kind of the call; always "function" here (`type` on the wire).
    pub kind: String,
    pub function: FunctionCall,
}

#[derive(Debug, PartialEq)]
pub struct FunctionCall {
    pub name: String,
    pub arguments: String,
}

pub enum InputEventV {
    UserInputEvent(Seq<char>),
}

pub enum OutputEventV {
    OutputText(Seq<char>),
    OutputToolCall { id: Seq<char>, name: Seq<char>, arguments: Seq<char> },
    OutputToolCallDelta(Seq<char>),
    OutputToolResult { id: Seq<char>, result: Seq<char> },
    Error(Seq<char>),
}

pub struct FunctionCallV {
    pub name: Seq<char>,
    pub arguments: Seq<char>,
}

pub struct ToolCallV {
    pub id: Seq<char>,
    pub kind: Seq<char>,
    pub function: FunctionCallV,
}

pub struct MessageV {
    pub role: Seq<char>,
    pub content: Option<Seq<char>>,
    pub tool_calls: Option<Seq<ToolCallV>>,
    pub tool_call_id: Option<Seq<char>>,
}

pub open spec fn opt_view(o: Option<String>) -> Option<Seq<char>> {
    match o {
        Some(s) => Some(s@),
        None => None,
    }
}

impl View for InputEvent {
    type V = InputEventV;

    open spec fn view(&self) -> InputEventV {
        match self {
            InputEvent::UserInputEvent(s) => InputEventV::UserInputEvent(s@),
        }
    }
}

impl View for OutputEvent {
    type V = OutputEventV;

    open spec fn view(&self) -> OutputEventV {
        match self {
            OutputEvent::OutputText(s) => OutputEventV::OutputText(s@),
            OutputEvent::OutputToolCall { id, name, arguments } => OutputEventV::OutputToolCall {
                id: id@,
                name: name@,
                arguments: arguments@,
            },
            OutputEvent::OutputToolCallDelta(s) => OutputEventV::OutputToolCallDelta(s@),
            OutputEvent::OutputToolResult { id, result } => OutputEventV::OutputToolResult {
                id: id@,
                result: result@,
            },
            OutputEvent::Error(s) => OutputEventV::Error(s@),
        }
    }
}

impl View for FunctionCall {
    type V = FunctionCallV;

    open spec fn view(&self) -> FunctionCallV {
        FunctionCallV { name: self.name@, arguments: self.arguments@ }
    }
}

impl View for ToolCall {
    type V = ToolCallV;

    open spec fn view(&self) -> ToolCallV {
        ToolCallV { id: self.id@, kind: self.kind@, function: self.function@ }
    }
}

pub open spec fn tool_calls_view(s: Seq<ToolCall>) -> Seq<ToolCallV> {
    Seq::new(s.len(), |i: int| s[i]@)
}

pub open spec fn messages_view(s: Seq<Message>) -> Seq<MessageV> {
    Seq::new(s.len(), |i: int| s[i]@)
}

pub open spec fn outputs_view(s: Seq<OutputEvent>) -> Seq<OutputEventV> {
    Seq::new(s.len(), |i: int| s[i]@)
}

impl View for Message {
    type V = MessageV;

    open spec fn view(&self) -> MessageV {
        MessageV {
            role: self.role@,
            content: opt_view(self.content),
            tool_calls: match self.tool_calls {
                Some(v) => Some(tool_calls_view(v@)),
                None => None,
            },
            tool_call_id: opt_view(self.tool_call_id),
        }
    }
}

/// A copy of an optional string.
pub fn copy_opt(o: &Option<String>) -> (r: Option<String>)
    ensures
        opt_view(r) == opt_view(*o),
{
    match o {
        Some(s) => Some(s.clone()),
        None => None,
    }
}

impl FunctionCall {
    pub fn duplicate(&self) -> (r: FunctionCall)
        ensures
            r@ == self@,
    {
        FunctionCall { name: self.name.clone(), arguments: self.arguments.clone() }
    }
}

impl ToolCall {
    pub fn duplicate(&self) -> (r: ToolCall)
        ensures
            r@ == self@,
    {
        ToolCall { id: self.id.clone(), kind: self.kind.clone(), function: self.function.duplicate() }
    }
}

/// A copy of a list of tool calls.
pub fn copy_tool_calls(v: &Vec<ToolCall>) -> (r: Vec<ToolCall>)
    ensures
        tool_calls_view(r@) == tool_calls_view(v@),
{
    let mut out: Vec<ToolCall> = Vec::new();
    for i in 0..v.len()
        invariant
            out@.len() == i,
            forall|k: int| 0 <= k < i ==> (#[trigger] out@[k])@ == v@[k]@,
    {
        out.push(v[i].duplicate());
    }
    assert(tool_calls_view(out@) =~= tool_calls_view(v@));
    out
}

impl Message {
    pub fn duplicate(&self) -> (r: Message)
        ensures
            r@ == self@,
    {
        Message {
            role: self.role.clone(),
            content: copy_opt(&self.content),
            tool_calls: match &self.tool_calls {
                Some(v) => Some(copy_tool_calls(v)),
                None => None,
            },
            tool_call_id: copy_opt(&self.tool_call_id),
        }
    }
}

/// A copy of a list of messages.
pub fn copy_messages(v: &Vec<Message>) -> (r: Vec<Message>)
    ensures
        messages_view(r@) == messages_view(v@),
{
    let mut out: Vec<Message> = Vec::new();
    for i in 0..v.len()
        invariant
            out@.len() == i,
            forall|k: int| 0 <= k < i ==> (#[trigger] out@[k])@ == v@[k]@,
    {
        out.push(v[i].duplicate());
    }
    assert(messages_view(out@) =~= messages_view(v@));
    out
}

// ---------------------------------------------------------------------------
// The wire form of the conversation, as the chat completion API reads it.
/// A string, or null.
pub open spec fn opt_str_json(o: Option<Seq<char>>) -> JsonV {
    match o {
        Some(s) => JsonV::Str(s),
        None => JsonV::Null,
    }
}

pub open spec fn function_call_json(f: FunctionCallV) -> JsonV {
    JsonV::Object(seq![("name"@, JsonV::Str(f.name)), ("arguments"@, JsonV::Str(f.arguments))])
}

pub open spec fn tool_call_json(c: ToolCallV) -> JsonV {
    JsonV::Object(
        seq![
            ("id"@, JsonV::Str(c.id)),
            ("type"@, JsonV::Str(c.kind)),
            ("function"@, function_call_json(c.function)),
        ],
    )
}

pub open spec fn tool_calls_json(o: Option<Seq<ToolCallV>>) -> JsonV {
    match o {
        Some(s) => JsonV::Array(Seq::new(s.len(), |i: int| tool_call_json(s[i]))),
        None => JsonV::Null,
    }
}

/// A message as a JSON object with the members role, content, tool_calls
/// and tool_call_id, an absent value being null.
pub open spec fn message_json(m: MessageV) -> JsonV {
    JsonV::Object(
        seq![
            ("role"@, JsonV::Str(m.role)),
            ("content"@, opt_str_json(m.content)),
            ("tool_calls"@, tool_calls_json(m.tool_calls)),
            ("tool_call_id"@, opt_str_json(m.tool_call_id)),
        ],
    )
}

pub fn opt_string_json(o: &Option<String>) -> (r: Json)
    ensures
        r.deep() == opt_str_json(opt_view(*o)),
{
    match o {
        Some(s) => Json::Str(s.clone()),
        None => Json::Null,
    }
}

/// An object with two members.
pub fn object2(k1: &str, v1: Json, k2: &str, v2: Json) -> (r: Json)
    ensures
        r.deep() == JsonV::Object(seq![(k1@, v1.deep()), (k2@, v2.deep())]),
{
    let mut es: Vec<(String, Json)> = Vec::new();
    let ghost d1 = v1.deep();
    let ghost d2 = v2.deep();
    es.push((owned(k1), v1));
    es.push((owned(k2), v2));
    proof {
        lemma_deep_entries_ext(es@, seq![(k1@, d1), (k2@, d2)]);
    }
    Json::Object(es)
}

/// An object with three members.
pub fn object3(k1: &str, v1: Json, k2: &str, v2: Json, k3: &str, v3: Json) -> (r: Json)
    ensures
        r.deep() == JsonV::Object(seq![(k1@, v1.deep()), (k2@, v2.deep()), (k3@, v3.deep())]),
{
    let mut es: Vec<(String, Json)> = Vec::new();
    let ghost d1 = v1.deep();
    let ghost d2 = v2.deep();
    let ghost d3 = v3.deep();
    es.push((owned(k1), v1));
    es.push((owned(k2), v2));
    es.push((owned(k3), v3));
    proof {
        lemma_deep_entries_ext(es@, seq![(k1@, d1), (k2@, d2), (k3@, d3)]);
    }
    Json::Object(es)
}

/// An object with four members.
pub fn object4(k1: &str, v1: Json, k2: &str, v2: Json, k3: &str, v3: Json, k4: &str, v4: Json) -> (r:
    Json)
    ensures
        r.deep() == JsonV::Object(
            seq![(k1@, v1.deep()), (k2@, v2.deep()), (k3@, v3.deep()), (k4@, v4.deep())],
        ),
{
    let mut es: Vec<(String, Json)> = Vec::new();
    let ghost d1 = v1.deep();
    let ghost d2 = v2.deep();
    let ghost d3 = v3.deep();
    let ghost d4 = v4.deep();
    es.push((owned(k1), v1));
    es.push((owned(k2), v2));
    es.push((owned(k3), v3));
    es.push((owned(k4), v4));
    proof {
        lemma_deep_entries_ext(es@, seq![(k1@, d1), (k2@, d2), (k3@, d3), (k4@, d4)]);
    }
    Json::Object(es)
}

impl FunctionCall {
    pub fn to_json(&self) -> (r: Json)
        ensures
            r.deep() == function_call_json(self@),
    {
        object2("name", Json::Str(self.name.clone()), "arguments", Json::Str(self.arguments.clone()))
    }
}

impl ToolCall {
    pub fn to_json(&self) -> (r: Json)
        ensures
            r.deep() == tool_call_json(self@),
    {
        object3(
            "id",
            Json::Str(self.id.clone()),
            "type",
            Json::Str(self.kind.clone()),
            "function",
            self.function.to_json(),
        )
    }
}

impl Message {
    /// The message as the chat completion API reads it.
    pub fn to_json(&self) -> (r: Json)
        ensures
            r.deep() == message_json(self@),
    {
        let calls = match &self.tool_calls {
            Some(v) => {
                let mut out: Vec<Json> = Vec::new();
                for i in 0..v.len()
                    invariant
                        out@.len() == i,
                        forall|k: int| 0 <= k < i ==> (#[trigger] out@[k]).deep() == tool_call_json(
                            v@[k]@),
                {
                    out.push(v[i].to_json());
                }
                proof {
                    lemma_deep_seq_ext(
                        out@,
                        Seq::new(v@.len(), |k: int| tool_call_json(tool_calls_view(v@)[k])),
                    );
                }
                Json::Array(out)
            },
            None => Json::Null,
        };
        object4(
            "role",
            Json::Str(self.role.clone()),
            "content",
            opt_string_json(&self.content),
            "tool_calls",
            calls,
            "tool_call_id",
            opt_string_json(&self.tool_call_id),
        )
    }
}


/// The wire form of a function call carries its name and its arguments
/// unchanged.
pub proof fn lemma_function_call_json_fields(f: FunctionCallV)
    ensures
        function_call_json(f).field("name"@) == JsonV::Str(f.name),
        function_call_json(f).field("arguments"@) == JsonV::Str(f.arguments),
{
    reveal_strlit("name");
    reveal_strlit("arguments");
    reveal_with_fuel(crate::json::entries_lookup, 3);
    assert("name"@ != "arguments"@) by {
        assert("name"@.len() != "arguments"@.len());
    }
}

/// The wire form of a message carries each of its tool calls, in order, with
/// its id and its function call.
pub proof fn lemma_message_json_calls(m: MessageV, j: int)
    requires
        m.tool_calls matches Some(cs) && 0 <= j < cs.len(),
    ensures
        message_json(m).field("tool_calls"@).item(j).field("id"@) == JsonV::Str(m.tool_calls->0[j].id),
        message_json(m).field("tool_calls"@).item(j).field("function"@) == function_call_json(
            m.tool_calls->0[j].function,
        ),
{
    reveal_strlit("role");
    reveal_strlit("content");
    reveal_strlit("tool_calls");
    reveal_strlit("tool_call_id");
    reveal_strlit("id");
    reveal_strlit("type");
    reveal_strlit("function");
    reveal_with_fuel(crate::json::entries_lookup, 5);
    assert("tool_calls"@ != "tool_call_id"@) by {
        assert("tool_calls"@.len() != "tool_call_id"@.len());
    }
    assert("tool_calls"@ != "content"@) by {
        assert("tool_calls"@.len() != "content"@.len());
    }
    assert("tool_calls"@ != "role"@) by {
        assert("tool_calls"@.len() != "role"@.len());
    }
    assert("id"@ != "type"@) by {
        assert("id"@.len() != "type"@.len());
    }
    assert("id"@ != "function"@) by {
        assert("id"@.len() != "function"@.len());
    }
}

} // verus!
