//! The HTTP API's requests and replies, and the decisions its handlers make
//! before and after the outside work (model runs, database queries).
use vstd::prelude::*;

use crate::engine::Message;
use crate::memory::InsertOutcome;
use crate::model_manager::{model_ids, resolved, string_views, ModelManager};
use crate::registry::{name_views, selected, tool_views, ToolRegistry};
use crate::text::{chars_eq, chars_of};
use crate::memory::{fts_query, search_query};
use crate::tools::{
    datetime_tool_spec, opt_view, remember_tool, remember_tool_spec, ToolDefinition, ToolSpec,
};

verus! {

// ── Requests and replies ─────────────────────────────────────────────────────

/// `POST /chat`: a conversation whose last message is the user's.
pub struct ChatRequest {
    pub model: Option<String>,
    pub session_id: Option<String>,
    pub messages: Vec<Message>,
    /// Tool names to enable; none when empty (the default).
    pub tools: Vec<String>,
}

/// `POST /command`: one instruction in natural language.
pub struct CommandRequest {
    pub model: Option<String>,
    pub text: String,
    /// Tool names to enable:
    /// - omitted or `null`: all registered tools (default)
    /// - `[]`: no tools
    /// - `["name", ...]`: only the named tools
    pub tools: Option<Vec<String>>,
}

/// `POST /remember`.
pub struct RememberRequest {
    pub text: String,
}

/// What `POST /remember` answers: `stored` or `already known`.
pub struct RememberResponse {
    pub result: String,
}

/// One stored memory.
pub struct MemoryEntry {
    pub content: String,
}

/// What `POST /models/load` answers.
pub struct LoadModelResponse {
    pub model_handle: String,
    pub status: &'static str,
}

/// What `GET /models` answers.
pub struct ListModelsResponse {
    pub loaded: Vec<String>,
    pub active: Option<String>,
}

/// A stored chat session.
pub struct SessionRow {
    pub id: String,
    pub model_id: String,
    pub title: Option<String>,
    pub created_at: i64,
    pub last_used: i64,
}

/// A stored chat message.
pub struct MessageRow {
    pub id: i64,
    pub session_id: String,
    pub role: String,
    pub content: String,
    pub tool_call: Option<String>,
    pub tool_result: Option<String>,
    pub created_at: i64,
}

// ── Status codes ─────────────────────────────────────────────────────────────

pub const STATUS_CREATED: u16 = 201;

pub const STATUS_NO_CONTENT: u16 = 204;

pub const STATUS_NOT_FOUND: u16 = 404;

pub const STATUS_INTERNAL_SERVER_ERROR: u16 = 500;

pub const STATUS_SERVICE_UNAVAILABLE: u16 = 503;

// ── Choosing the model and the tools ─────────────────────────────────────────

/// The model a request asks for, by `ModelManager::resolve`; an error when
/// there is none.
pub fn resolve_model<'a, B>(models: &'a ModelManager<B>, model: &Option<String>) -> (r: Result<
    &'a B,
    String,
>)
    ensures
        match resolved(models@, opt_view(*model)) {
            Some(b) => r matches Ok(x) && *x == b,
            None => r matches Err(e) && e@ == "No model loaded"@,
        },
{
    let found = match model {
        Some(id) => models.resolve(Some(id.as_str())),
        None => models.resolve(None),
    };
    match found {
        Some(b) => Ok(b),
        None => Err("No model loaded".to_owned()),
    }
}

/// The tools a chat enables: none when no name is given, else those named.
pub open spec fn chat_selection(registry: Seq<ToolSpec>, names: Seq<Seq<char>>) -> Seq<ToolSpec> {
    if names.len() == 0 {
        Seq::empty()
    } else {
        selected(registry, names)
    }
}

/// The `remember` tool when memory is on and `wanted`, else nothing.
pub open spec fn remember_offer(memory: bool, wanted: bool) -> Seq<ToolSpec> {
    if memory && wanted {
        seq![remember_tool_spec()]
    } else {
        Seq::empty()
    }
}

/// The tools a command enables: all when the list is left out, none when it
/// is empty, else those named. With memory on, `remember` is among all the
/// tools, and among the named ones when it is named.
pub open spec fn command_selection(
    registry: Seq<ToolSpec>,
    names: Option<Seq<Seq<char>>>,
    memory: bool,
) -> Seq<ToolSpec> {
    match names {
        None => seq![datetime_tool_spec()] + registry + remember_offer(memory, true),
        Some(ns) => if ns.len() == 0 {
            Seq::empty()
        } else {
            selected(registry, ns) + remember_offer(memory, ns.contains("remember"@))
        },
    }
}

/// The tools a chat enables.
pub fn chat_tools(registry: &ToolRegistry, names: &Vec<String>) -> (r: Vec<ToolDefinition>)
    ensures
        tool_views(r@) == chat_selection(registry@, name_views(names@)),
{
    if names.len() == 0 {
        let r: Vec<ToolDefinition> = Vec::new();
        assert(tool_views(r@) =~= Seq::<ToolSpec>::empty());
        r
    } else {
        registry.by_names(names)
    }
}

/// The tools a command enables.
pub fn command_tools(registry: &ToolRegistry, names: &Option<Vec<String>>, memory: bool) -> (r: Vec<
    ToolDefinition,
>)
    ensures
        tool_views(r@) == command_selection(
            registry@,
            match names {
                Some(ns) => Some(name_views(ns@)),
                None => None,
            },
            memory,
        ),
{
    let (mut r, wanted) = match names {
        None => (registry.all(), true),
        Some(ns) => {
            if ns.len() == 0 {
                let r: Vec<ToolDefinition> = Vec::new();
                assert(tool_views(r@) =~= Seq::<ToolSpec>::empty());
                return r;
            } else {
                (registry.by_names(ns), names_contain(ns, "remember"))
            }
        },
    };
    let ghost before = tool_views(r@);
    if memory && wanted {
        r.push(remember_tool());
        assert(tool_views(r@) =~= before + seq![remember_tool_spec()]);
    } else {
        assert(tool_views(r@) =~= before + Seq::<ToolSpec>::empty());
    }
    r
}

/// Whether `names` holds `name`.
fn names_contain(names: &Vec<String>, name: &str) -> (b: bool)
    ensures
        b == name_views(names@).contains(name@),
{
    let target = chars_of(name);
    let mut i: usize = 0;
    while i < names.len()
        invariant
            i <= names.len(),
            target@ == name@,
            forall|j: int| 0 <= j < i ==> name_views(names@)[j] != name@,
        decreases names.len() - i,
    {
        let n = chars_of(names[i].as_str());
        if chars_eq(&n, &target) {
            assert(name_views(names@)[i as int] == name@);
            return true;
        }
        i += 1;
    }
    false
}

// ── Chat history ─────────────────────────────────────────────────────────────

pub open spec fn is_user(m: Message) -> bool {
    m.role@ == "user"@
}

/// Splits a chat into the history before the last message and the text of
/// that message, which must be the user's.
pub fn split_chat_messages(messages: Vec<Message>) -> (r: Result<(Vec<Message>, String), String>)
    ensures
        messages@.len() > 0 && is_user(messages@.last()) ==> (r matches Ok((history, user_text))
            && history@ == messages@.drop_last() && user_text@ == messages@.last().content@),
        !(messages@.len() > 0 && is_user(messages@.last())) ==> (r matches Err(e) && e@
            == "Last message must be from user"@),
{
    let ghost all = messages@;
    let mut history = messages;
    match history.pop() {
        Some(last) => {
            let role = chars_of(last.role.as_str());
            let user = chars_of("user");
            if chars_eq(&role, &user) {
                Ok((history, last.content))
            } else {
                Err("Last message must be from user".to_owned())
            }
        },
        None => Err("Last message must be from user".to_owned()),
    }
}

/// What a chat runs: the model, the tools, the history and the user's text;
/// or why it cannot run (no model, then a last message not the user's).
pub fn plan_chat<'a, B>(models: &'a ModelManager<B>, registry: &ToolRegistry, req: ChatRequest) -> (r:
    Result<(&'a B, Vec<ToolDefinition>, Vec<Message>, String), String>)
    ensures
        match resolved(models@, opt_view(req.model)) {
            None => r matches Err(e) && e@ == "No model loaded"@,
            Some(b) => if req.messages@.len() > 0 && is_user(req.messages@.last()) {
                r matches Ok((backend, tools, history, user_text)) && {
                    &&& *backend == b
                    &&& tool_views(tools@) == chat_selection(registry@, name_views(req.tools@))
                    &&& history@ == req.messages@.drop_last()
                    &&& user_text@ == req.messages@.last().content@
                }
            } else {
                r matches Err(e) && e@ == "Last message must be from user"@
            },
        },
{
    let backend = match resolve_model(models, &req.model) {
        Ok(b) => b,
        Err(e) => return Err(e),
    };
    let tools = chat_tools(registry, &req.tools);
    match split_chat_messages(req.messages) {
        Ok((history, user_text)) => Ok((backend, tools, history, user_text)),
        Err(e) => Err(e),
    }
}

/// What a command runs: the model, the tools, the text and, with memory on,
/// the full-text query that recalls the memories bearing on the text (none
/// when nothing of the text survives cleaning); or an error when no model is
/// loaded.
pub fn plan_command<'a, B>(
    models: &'a ModelManager<B>,
    registry: &ToolRegistry,
    req: CommandRequest,
    memory: bool,
) -> (r: Result<(&'a B, Vec<ToolDefinition>, String, Option<String>), String>)
    ensures
        match resolved(models@, opt_view(req.model)) {
            None => r matches Err(e) && e@ == "No model loaded"@,
            Some(b) => r matches Ok((backend, tools, text, recall)) && {
                &&& *backend == b
                &&& tool_views(tools@) == command_selection(
                    registry@,
                    match req.tools {
                        Some(ns) => Some(name_views(ns@)),
                        None => None,
                    },
                    memory,
                )
                &&& text@ == req.text@
                &&& opt_view(recall) == (if memory && fts_query(req.text@).len() > 0 {
                    Some(fts_query(req.text@))
                } else {
                    None
                })
            },
        },
{
    let backend = match resolve_model(models, &req.model) {
        Ok(b) => b,
        Err(e) => return Err(e),
    };
    let tools = command_tools(registry, &req.tools, memory);
    let recall = if memory {
        search_query(req.text.as_str())
    } else {
        None
    };
    Ok((backend, tools, req.text, recall))
}

// ── Replies ──────────────────────────────────────────────────────────────────

/// The status `DELETE /tools/{name}` answers: 204 when a tool was deleted,
/// 404 when none had the name, 500 when the database failed.
pub fn delete_tool_status(outcome: Result<bool, String>) -> (status: u16)
    ensures
        status == (match outcome {
            Ok(true) => STATUS_NO_CONTENT,
            Ok(false) => STATUS_NOT_FOUND,
            Err(_) => STATUS_INTERNAL_SERVER_ERROR,
        }),
{
    match outcome {
        Ok(true) => STATUS_NO_CONTENT,
        Ok(false) => STATUS_NOT_FOUND,
        Err(_) => STATUS_INTERNAL_SERVER_ERROR,
    }
}

/// What `POST /remember` answers: 503 when memory is disabled (`None`), 500
/// with the store's message when it failed, else the outcome's word.
pub fn remember_reply(outcome: Option<Result<InsertOutcome, String>>) -> (r: Result<
    RememberResponse,
    (u16, String),
>)
    ensures
        match outcome {
            None => r matches Err((status, m)) && status == STATUS_SERVICE_UNAVAILABLE && m@
                == "memory is disabled"@,
            Some(Err(e)) => r matches Err((status, m)) && status == STATUS_INTERNAL_SERVER_ERROR
                && m@ == e@,
            Some(Ok(InsertOutcome::Stored)) => r matches Ok(resp) && resp.result@ == "stored"@,
            Some(Ok(InsertOutcome::AlreadyKnown)) => r matches Ok(resp) && resp.result@
                == "already known"@,
        },
{
    match outcome {
        None => Err((STATUS_SERVICE_UNAVAILABLE, "memory is disabled".to_owned())),
        Some(Err(e)) => Err((STATUS_INTERNAL_SERVER_ERROR, e)),
        Some(Ok(o)) => Ok(RememberResponse { result: o.as_str().to_owned() }),
    }
}

/// The stored memories as API entries, in the same order.
pub fn memory_entries(contents: Vec<String>) -> (r: Vec<MemoryEntry>)
    ensures
        r@.len() == contents@.len(),
        forall|i: int| 0 <= i < r@.len() ==> (#[trigger] r@[i]).content@ == contents@[i]@,
{
    let mut r: Vec<MemoryEntry> = Vec::new();
    let mut i: usize = 0;
    while i < contents.len()
        invariant
            i <= contents.len(),
            r@.len() == i,
            forall|j: int| 0 <= j < i ==> (#[trigger] r@[j]).content@ == contents@[j]@,
        decreases contents.len() - i,
    {
        r.push(MemoryEntry { content: contents[i].clone() });
        i += 1;
    }
    r
}

/// What `GET /models` answers: the loaded ids and the active one.
pub fn list_models_response<B>(models: &ModelManager<B>) -> (r: ListModelsResponse)
    ensures
        string_views(r.loaded@) == model_ids(models@.models),
        opt_view(r.active) == models@.active,
{
    ListModelsResponse { loaded: models.loaded_ids(), active: models.active_id() }
}

/// What `POST /models/load` answers once the model is loaded.
pub fn loaded_response(model_id: String) -> (r: LoadModelResponse)
    ensures
        r.model_handle@ == model_id@,
        r.status@ == "loaded"@,
{
    LoadModelResponse { model_handle: model_id, status: "loaded" }
}

} // verus!
