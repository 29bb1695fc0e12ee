//! Messages and events exchanged between the session runner, the model
//! backends and the HTTP layer.
use vstd::prelude::*;

use crate::json::Json;

verus! {

/// One chat turn.
pub struct Message {
    pub role: String,
    pub content: String,
}

impl Clone for Message {
    fn clone(&self) -> (r: Self)
        ensures
            r == *self,
    {
        Message { role: self.role.clone(), content: self.content.clone() }
    }
}

/// A tool call the session carried out, with the result fed back to the model.
pub struct ToolExecution {
    pub tool: String,
    pub args: Json,
    pub result: String,
}

impl Clone for ToolExecution {
    fn clone(&self) -> (r: Self)
        ensures
            r == *self,
    {
        ToolExecution { tool: self.tool.clone(), args: self.args.clone(), result: self.result.clone() }
    }
}

/// What an execution record says, over character sequences.
pub ghost struct ExecutionSpec {
    pub tool: Seq<char>,
    pub args: Json,
    pub result: Seq<char>,
}

impl View for ToolExecution {
    type V = ExecutionSpec;

    open spec fn view(&self) -> ExecutionSpec {
        ExecutionSpec { tool: self.tool@, args: self.args, result: self.result@ }
    }
}

pub open spec fn executions_view(v: Seq<ToolExecution>) -> Seq<ExecutionSpec> {
    v.map_values(|e: ToolExecution| e@)
}

/// A piece of streamed text.
pub struct DeltaEvent {
    pub delta: String,
    pub done: bool,
}

/// The final event of a session.
pub struct DoneEvent {
    pub delta: String,
    pub done: bool,
    pub tool_executions: Vec<ToolExecution>,
}

/// Events streamed from a running session.
pub enum SessionEvent {
    Delta(DeltaEvent),
    Done(DoneEvent),
}

/// A message being sent into a conversation.
pub enum IncomingMessage {
    /// Initial or follow-up user turn.
    User(String),
    /// Tool execution result fed back to the model.
    ToolResult { tool_name: String, result: String },
}

/// A decoded response from the model.
pub enum BackendResponse {
    /// The model produced a text answer: the conversation is complete.
    Text(String),
    /// The model wants to call a tool before answering.
    ToolCall { name: String, arguments: Json },
}

/// What a response says, over character sequences.
pub ghost enum Response {
    Text(Seq<char>),
    ToolCall(Seq<char>, Json),
}

impl View for BackendResponse {
    type V = Response;

    open spec fn view(&self) -> Response {
        match self {
            BackendResponse::Text(t) => Response::Text(t@),
            BackendResponse::ToolCall { name, arguments } => Response::ToolCall(name@, *arguments),
        }
    }
}

} // verus!
