//! Decisions of the LiteRT-LM backend: the JSON it is sent and how its
//! replies are read.
use vstd::prelude::*;

use crate::engine::{BackendResponse, Message, Response};
use crate::json::{
    entries_view, json_array, json_array_value, json_as_array, json_as_str, json_field,
    json_get, json_is_object, json_is_object_exec, json_items, json_new_object, json_node,
    json_object, json_object_value, json_parsed, json_shape, json_size, json_str, json_string,
    json_string_value, json_text, json_to_text, parse_json, Json, JsonNode, JsonShape,
    json_empty_object, key_lt, keys_ascending,
};
use crate::llama::{
    first_tool_call, first_tool_call_exec, openai_arguments, openai_arguments_exec, openai_name,
    openai_name_exec,
};
use crate::text::{chars_of, replace_all, replace_all_exec, string_of};
use crate::registry::tool_views;
use crate::tools::{function_declaration, ToolDefinition, ToolSpec};

verus! {

// ── Cleaning Gemma's special tokens out of argument values ───────────────────

/// A string with the raw vocabulary tokens `<|"`, `"|>`, `<|` and `|>` removed,
/// in that order.
pub open spec fn strip_gemma_tokens(s: Seq<char>) -> Seq<char> {
    replace_all(
        replace_all(
            replace_all(replace_all(s, "<|\""@, Seq::empty()), "\"|>"@, Seq::empty()),
            "<|"@,
            Seq::empty(),
        ),
        "|>"@,
        Seq::empty(),
    )
}

pub open spec fn node_children_smaller(v: Json) -> bool {
    match json_node(v) {
        JsonNode::Array(items) => all_smaller(items, json_size(v)),
        JsonNode::Object(es) => entries_smaller(es, json_size(v)),
        _ => true,
    }
}

pub open spec fn all_smaller(items: Seq<Json>, bound: nat) -> bool {
    forall|i: int| 0 <= i < items.len() ==> #[trigger] json_size(items[i]) < bound
}

pub open spec fn entries_smaller(es: Seq<(Seq<char>, Json)>, bound: nat) -> bool {
    forall|i: int| 0 <= i < es.len() ==> #[trigger] json_size(es[i].1) < bound
}

/// A value with the tokens stripped from every string in it (object keys are
/// kept).
pub open spec fn cleaned(v: Json) -> Json
    decreases json_size(v) + 1, 0nat,
    when node_children_smaller(v)
{
    match json_node(v) {
        JsonNode::Str(s) => json_string_value(strip_gemma_tokens(s)),
        JsonNode::Array(items) => json_array_value(cleaned_items(items, json_size(v))),
        JsonNode::Object(es) => json_object_value(cleaned_entries(es, json_size(v))),
        _ => v,
    }
}

pub open spec fn cleaned_items(items: Seq<Json>, bound: nat) -> Seq<Json>
    decreases bound, items.len(),
    when all_smaller(items, bound)
{
    if items.len() == 0 {
        Seq::empty()
    } else {
        cleaned_items(items.drop_last(), bound).push(cleaned(items.last()))
    }
}

pub open spec fn cleaned_entries(es: Seq<(Seq<char>, Json)>, bound: nat) -> Seq<
    (Seq<char>, Json),
>
    decreases bound, es.len(),
    when entries_smaller(es, bound)
{
    if es.len() == 0 {
        Seq::empty()
    } else {
        cleaned_entries(es.drop_last(), bound).push((es.last().0, cleaned(es.last().1)))
    }
}

fn strip_gemma_tokens_exec(s: &str) -> (r: String)
    ensures
        r@ == strip_gemma_tokens(s@),
{
    let t = chars_of(s);
    let empty: Vec<char> = Vec::new();
    let p1 = chars_of("<|\"");
    let p2 = chars_of("\"|>");
    let p3 = chars_of("<|");
    let p4 = chars_of("|>");
    proof {
        reveal_strlit("<|\"");
        reveal_strlit("\"|>");
        reveal_strlit("<|");
        reveal_strlit("|>");
    }
    let a = replace_all_exec(&t, &p1, &empty);
    let b = replace_all_exec(&a, &p2, &empty);
    let c = replace_all_exec(&b, &p3, &empty);
    let d = replace_all_exec(&c, &p4, &empty);
    string_of(&d)
}

/// The value keeps its shape: a string is cleaned, an array keeps its
/// length and an object its keys in order, each element cleaned in turn;
/// any other value is kept.
pub open spec fn cleaned_in_place(v: Json, r: Json) -> bool {
    match json_node(v) {
        JsonNode::Str(s) => json_node(r) == JsonNode::Str(strip_gemma_tokens(s)),
        JsonNode::Array(items) => json_node(r) matches JsonNode::Array(out) && out.len()
            == items.len() && forall|i: int|
            0 <= i < items.len() ==> #[trigger] out[i] == cleaned(items[i]),
        JsonNode::Object(es) => json_node(r) matches JsonNode::Object(out) && out.len()
            == es.len() && forall|i: int|
            0 <= i < es.len() ==> #[trigger] out[i] == (es[i].0, cleaned(es[i].1)),
        _ => r == v,
    }
}

/// `r` is `v` cleaned at every depth: each string has the tokens stripped,
/// each array keeps its length and each object its keys in order, with every
/// element cleaned in the same way; any other value is kept.
pub open spec fn cleaned_deep(v: Json, r: Json) -> bool
    decreases json_size(v),
{
    &&& node_children_smaller(v)
    &&& match json_node(v) {
        JsonNode::Str(s) => json_node(r) == JsonNode::Str(strip_gemma_tokens(s)),
        JsonNode::Array(items) => json_node(r) matches JsonNode::Array(out) && out.len()
            == items.len() && forall|i: int|
            0 <= i < items.len() ==> cleaned_deep(#[trigger] items[i], out[i]),
        JsonNode::Object(es) => json_node(r) matches JsonNode::Object(out) && out.len()
            == es.len() && forall|i: int|
            0 <= i < es.len() ==> out[i].0 == (#[trigger] es[i]).0 && cleaned_deep(
                es[i].1,
                out[i].1,
            ),
        _ => r == v,
    }
}

/// Strips Gemma 4 special-token artifacts (`<|"` / `"|>`) from every string
/// in an argument value, so that tool argument substitution receives clean
/// strings. The value keeps its shape.
pub fn clean_gemma_tokens(v: &Json) -> (r: Json)
    ensures
        r == cleaned(*v),
        cleaned_in_place(*v, r),
        cleaned_deep(*v, r),
        node_children_smaller(*v),
    decreases json_size(*v),
{
    let shape = json_shape(v);
    assert(node_children_smaller(*v));
    match shape {
        JsonShape::Str(s) => json_string(strip_gemma_tokens_exec(s.as_str())),
        JsonShape::Array(items) => {
            let mut out: Vec<Json> = Vec::new();
            let n = items.len();
            let mut i: usize = 0;
            while i < n
                invariant
                    n == items.len(),
                    i <= n,
                    json_node(*v) == JsonNode::Array(items@),
                    all_smaller(items@, json_size(*v)),
                    out@ == cleaned_items(items@.take(i as int), json_size(*v)),
                    out@.len() == i,
                    forall|j: int| 0 <= j < i ==> #[trigger] out@[j] == cleaned(items@[j]),
                    forall|j: int| 0 <= j < i ==> cleaned_deep(#[trigger] items@[j], out@[j]),
                decreases n - i,
            {
                let c = clean_gemma_tokens(&items[i]);
                proof {
                    let t = items@.take(i + 1);
                    assert(t.drop_last() =~= items@.take(i as int));
                    assert(t.last() == items@[i as int]);
                    assert(all_smaller(t, json_size(*v)));
                    assert(all_smaller(t.drop_last(), json_size(*v)));
                    assert(cleaned_items(t, json_size(*v)) == cleaned_items(
                        t.drop_last(),
                        json_size(*v),
                    ).push(cleaned(t.last())));
                }
                out.push(c);
                i += 1;
            }
            assert(items@.take(n as int) =~= items@);
            json_array(out)
        },
        JsonShape::Object(es) => {
            let mut out: Vec<(String, Json)> = Vec::new();
            let n = es.len();
            let mut i: usize = 0;
            while i < n
                invariant
                    n == es.len(),
                    i <= n,
                    json_node(*v) == JsonNode::Object(entries_view(es@)),
                    entries_smaller(entries_view(es@), json_size(*v)),
                    entries_view(out@) == cleaned_entries(
                        entries_view(es@).take(i as int),
                        json_size(*v),
                    ),
                    out@.len() == i,
                    forall|j: int|
                        0 <= j < i ==> #[trigger] entries_view(out@)[j] == (
                            entries_view(es@)[j].0,
                            cleaned(entries_view(es@)[j].1),
                        ),
                    forall|j: int|
                        0 <= j < i ==> cleaned_deep(
                            (#[trigger] entries_view(es@)[j]).1,
                            entries_view(out@)[j].1,
                        ),
                decreases n - i,
            {
                assert(entries_view(es@)[i as int].1 == es@[i as int].1);
                assert(json_size(es@[i as int].1) < json_size(*v));
                let c = clean_gemma_tokens(&es[i].1);
                proof {
                    let t = entries_view(es@).take(i + 1);
                    assert(t.drop_last() =~= entries_view(es@).take(i as int));
                    assert(t.last() == (es@[i as int].0@, es@[i as int].1));
                    assert(entries_smaller(t, json_size(*v)));
                    assert(entries_smaller(t.drop_last(), json_size(*v)));
                    assert(cleaned_entries(t, json_size(*v)) == cleaned_entries(
                        t.drop_last(),
                        json_size(*v),
                    ).push((t.last().0, cleaned(t.last().1))));
                }
                let ghost before = out@;
                out.push((es[i].0.clone(), c));
                assert(entries_view(out@) =~= entries_view(before).push(
                    (es@[i as int].0@, cleaned(es@[i as int].1)),
                ));
                i += 1;
            }
            assert(entries_view(es@).take(n as int) =~= entries_view(es@));
            proof {
                let ev = entries_view(es@);
                let ov = entries_view(out@);
                assert(keys_ascending(ev));
                assert forall|a: int, b: int| 0 <= a < b < ov.len() implies key_lt(
                    #[trigger] ov[a].0,
                    #[trigger] ov[b].0,
                ) by {
                    assert(ov[a].0 == ev[a].0);
                    assert(ov[b].0 == ev[b].0);
                }
            }
            json_object(out)
        },
        _ => v.clone(),
    }
}

// ── Reading replies ──────────────────────────────────────────────────────────

/// Arguments of an OpenAI-format call, cleaned: an object, or a string
/// parsed as JSON (`{}` when it does not parse); anything else is `{}`.
pub open spec fn openai_clean_arguments(call: Json) -> Json {
    match openai_arguments(call) {
        Some(v) => if json_is_object(v) {
            cleaned(v)
        } else {
            match json_str(v) {
                Some(s) => cleaned(
                    match json_parsed(s) {
                        Some(p) => p,
                        None => json_empty_object(),
                    },
                ),
                None => json_empty_object(),
            }
        },
        None => json_empty_object(),
    }
}

/// `fc["name"]` as a string, or empty.
pub open spec fn field_str_or_empty(v: Json, key: Seq<char>) -> Seq<char> {
    match json_field(v, key) {
        Some(n) => match json_str(n) {
            Some(s) => s,
            None => Seq::empty(),
        },
        None => Seq::empty(),
    }
}

/// The first part that is a `function_call` or carries `text`.
pub open spec fn content_parts_response(parts: Seq<Json>) -> Option<Response>
    decreases parts.len(),
{
    if parts.len() == 0 {
        None
    } else {
        let part = parts[0];
        match json_field(part, "function_call"@) {
            Some(fc) => Some(
                Response::ToolCall(
                    field_str_or_empty(fc, "name"@),
                    cleaned(
                        match json_field(fc, "args"@) {
                            Some(a) => a,
                            None => json_empty_object(),
                        },
                    ),
                ),
            ),
            None => match json_field(part, "text"@) {
                Some(t) => match json_str(t) {
                    Some(s) => Some(Response::Text(s)),
                    None => content_parts_response(parts.drop_first()),
                },
                None => content_parts_response(parts.drop_first()),
            },
        }
    }
}

/// The response a LiteRT-LM reply stands for: an OpenAI `tool_calls` call,
/// a Gemini `function_call` or `text` part, a bare JSON string, or else the
/// reply text itself.
pub open spec fn litert_response(reply: Seq<char>) -> Response {
    match json_parsed(reply) {
        None => Response::Text(reply),
        Some(val) => match first_tool_call(val) {
            Some(call) => Response::ToolCall(openai_name(call), openai_clean_arguments(call)),
            None => {
                let from_parts = match json_field(val, "content"@) {
                    Some(c) => match json_items(c) {
                        Some(parts) => content_parts_response(parts),
                        None => None,
                    },
                    None => None,
                };
                match from_parts {
                    Some(resp) => resp,
                    None => match json_str(val) {
                        Some(s) => Response::Text(s),
                        None => Response::Text(reply),
                    },
                }
            },
        },
    }
}

fn openai_clean_arguments_exec(call: &Json) -> (r: Json)
    ensures
        r == openai_clean_arguments(*call),
{
    match openai_arguments_exec(call) {
        Some(v) => if json_is_object_exec(&v) {
            clean_gemma_tokens(&v)
        } else {
            match json_as_str(&v) {
                Some(s) => {
                    let parsed = match parse_json(s.as_str()) {
                        Some(p) => p,
                        None => json_new_object(),
                    };
                    clean_gemma_tokens(&parsed)
                },
                None => json_new_object(),
            }
        },
        None => json_new_object(),
    }
}

fn field_str_or_empty_exec(v: &Json, key: &str) -> (r: String)
    ensures
        r@ == field_str_or_empty(*v, key@),
{
    match json_get(v, key) {
        Some(n) => match json_as_str(&n) {
            Some(s) => s,
            None => String::new(),
        },
        None => String::new(),
    }
}

fn content_parts_exec(parts: &Vec<Json>) -> (r: Option<BackendResponse>)
    ensures
        r matches Some(resp) ==> content_parts_response(parts@) == Some(resp@),
        r is None ==> content_parts_response(parts@) is None,
{
    let mut i: usize = 0;
    assert(parts@.subrange(0, parts@.len() as int) =~= parts@);
    while i < parts.len()
        invariant
            i <= parts.len(),
            content_parts_response(parts@) == content_parts_response(
                parts@.subrange(i as int, parts@.len() as int),
            ),
        decreases parts.len() - i,
    {
        let ghost rest = parts@.subrange(i as int, parts@.len() as int);
        assert(rest[0] == parts@[i as int]);
        assert(rest.drop_first() =~= parts@.subrange(i + 1, parts@.len() as int));
        let part = &parts[i];
        if let Some(fc) = json_get(part, "function_call") {
            let name = field_str_or_empty_exec(&fc, "name");
            let args = match json_get(&fc, "args") {
                Some(a) => a,
                None => json_new_object(),
            };
            let arguments = clean_gemma_tokens(&args);
            return Some(BackendResponse::ToolCall { name, arguments });
        }
        if let Some(t) = json_get(part, "text") {
            if let Some(s) = json_as_str(&t) {
                return Some(BackendResponse::Text(s));
            }
        }
        i += 1;
    }
    None
}

/// Reads a LiteRT-LM reply: an OpenAI `tool_calls` call, a Gemini
/// `function_call` or `text` part, a bare JSON string, or else the reply text.
pub fn parse_response(json_str: &str) -> (r: BackendResponse)
    ensures
        r@ == litert_response(json_str@),
{
    let val = match parse_json(json_str) {
        None => {
            return BackendResponse::Text(json_str.to_owned());
        },
        Some(v) => v,
    };
    if let Some(call) = first_tool_call_exec(&val) {
        let name = openai_name_exec(&call);
        let arguments = openai_clean_arguments_exec(&call);
        return BackendResponse::ToolCall { name, arguments };
    }
    if let Some(c) = json_get(&val, "content") {
        if let Some(parts) = json_as_array(&c) {
            if let Some(resp) = content_parts_exec(&parts) {
                return resp;
            }
        }
    }
    match json_as_str(&val) {
        Some(s) => BackendResponse::Text(s),
        None => BackendResponse::Text(json_str.to_owned()),
    }
}

// ── Building requests ────────────────────────────────────────────────────────

/// `[{"type":"text","text": text}]`.
pub open spec fn text_content(text: Seq<char>) -> Json {
    json_array_value(
        seq![
            json_object_value(
                seq![("type"@, json_string_value("text"@)), ("text"@, json_string_value(text))],
            ),
        ],
    )
}

/// `{"role": role, "content": [{"type":"text","text": text}]}`.
pub open spec fn content_message(role: Seq<char>, text: Seq<char>) -> Json {
    json_object_value(
        seq![("role"@, json_string_value(role)), ("content"@, text_content(text))],
    )
}

/// `{"role":"tool","name": name,"content": result}`.
pub open spec fn tool_result_message(name: Seq<char>, result: Seq<char>) -> Json {
    json_object_value(
        seq![
            ("role"@, json_string_value("tool"@)),
            ("name"@, json_string_value(name)),
            ("content"@, json_string_value(result)),
        ],
    )
}

/// `{"type":"text","text": text}`, the system-message form LiteRT-LM expects.
pub open spec fn system_text(text: Seq<char>) -> Json {
    json_object_value(seq![("type"@, json_string_value("text"@)), ("text"@, json_string_value(text))])
}

fn text_part(text: String) -> (r: Json)
    ensures
        r == json_object_value(
            seq![("type"@, json_string_value("text"@)), ("text"@, json_string_value(text@))],
        ),
{
    let mut es: Vec<(String, Json)> = Vec::new();
    es.push(("type".to_owned(), json_string("text".to_owned())));
    es.push(("text".to_owned(), json_string(text)));
    assert(entries_view(es@) =~= seq![
        ("type"@, json_string_value("text"@)),
        ("text"@, json_string_value(text@)),
    ]);
    json_object(es)
}

fn content_message_exec(role: String, text: String) -> (r: Json)
    ensures
        r == content_message(role@, text@),
{
    let mut parts: Vec<Json> = Vec::new();
    parts.push(text_part(text));
    let content = json_array(parts);
    assert(parts@ =~= seq![
        json_object_value(seq![("type"@, json_string_value("text"@)), ("text"@, json_string_value(text@))]),
    ]);
    let mut es: Vec<(String, Json)> = Vec::new();
    es.push(("role".to_owned(), json_string(role)));
    es.push(("content".to_owned(), content));
    assert(entries_view(es@) =~= seq![
        ("role"@, json_string_value(role@)),
        ("content"@, text_content(text@)),
    ]);
    json_object(es)
}

/// The user turn, as LiteRT-LM's JSON message text.
pub fn build_user_message(text: &str) -> (r: String)
    ensures
        r@ == json_text(content_message("user"@, text@)),
{
    let m = content_message_exec("user".to_owned(), text.to_owned());
    json_to_text(&m)
}

/// A tool result fed back to the model, as JSON message text. Gemma's chat
/// template reads the function name from `name` and the result from
/// `content` as a plain string.
pub fn build_tool_result_message(tool_name: &str, result: &str) -> (r: String)
    ensures
        r@ == json_text(tool_result_message(tool_name@, result@)),
{
    let mut es: Vec<(String, Json)> = Vec::new();
    es.push(("role".to_owned(), json_string("tool".to_owned())));
    es.push(("name".to_owned(), json_string(tool_name.to_owned())));
    es.push(("content".to_owned(), json_string(result.to_owned())));
    assert(entries_view(es@) =~= seq![
        ("role"@, json_string_value("tool"@)),
        ("name"@, json_string_value(tool_name@)),
        ("content"@, json_string_value(result@)),
    ]);
    let m = json_object(es);
    json_to_text(&m)
}

/// The system prompt as LiteRT-LM's `{"type":"text","text":...}` text.
pub fn build_system_json(system: &str) -> (r: String)
    ensures
        r@ == json_text(system_text(system@)),
{
    let m = text_part(system.to_owned());
    json_to_text(&m)
}

pub open spec fn declarations(tools: Seq<ToolSpec>) -> Seq<Json> {
    tools.map_values(|t: ToolSpec| function_declaration(t))
}

/// The tools as an OpenAI-format declaration array, `None` when there are none.
pub fn build_tools_json(tools: &Vec<ToolDefinition>) -> (r: Option<String>)
    ensures
        tools.len() == 0 ==> r is None,
        tools.len() > 0 ==> (r matches Some(s) && s@ == json_text(
            json_array_value(declarations(tool_views(tools@))),
        )),
{
    if tools.len() == 0 {
        return None;
    }
    let arr = declarations_exec(tools);
    let v = json_array(arr);
    Some(json_to_text(&v))
}

/// Each tool's function declaration, in order.
pub fn declarations_exec(tools: &Vec<ToolDefinition>) -> (r: Vec<Json>)
    ensures
        r@ == declarations(tool_views(tools@)),
{
    let mut arr: Vec<Json> = Vec::new();
    let mut i: usize = 0;
    while i < tools.len()
        invariant
            i <= tools.len(),
            arr@ == declarations(tool_views(tools@)).take(i as int),
        decreases tools.len() - i,
    {
        arr.push(tools[i].to_function_declaration());
        assert(arr@ =~= declarations(tool_views(tools@)).take(i + 1));
        i += 1;
    }
    assert(declarations(tool_views(tools@)).take(tools.len() as int) =~= declarations(
        tool_views(tools@),
    ));
    arr
}

pub open spec fn history_messages(history: Seq<Message>) -> Seq<Json> {
    history.map_values(|m: Message| content_message(m.role@, m.content@))
}

/// The prior turns as LiteRT-LM's message array text, `None` when there are
/// none.
pub fn build_messages_json(history: &Vec<Message>) -> (r: Option<String>)
    ensures
        history.len() == 0 ==> r is None,
        history.len() > 0 ==> (r matches Some(s) && s@ == json_text(
            json_array_value(history_messages(history@)),
        )),
{
    if history.len() == 0 {
        return None;
    }
    let mut arr: Vec<Json> = Vec::new();
    let mut i: usize = 0;
    while i < history.len()
        invariant
            i <= history.len(),
            arr@ == history_messages(history@).take(i as int),
        decreases history.len() - i,
    {
        arr.push(content_message_exec(history[i].role.clone(), history[i].content.clone()));
        assert(arr@ =~= history_messages(history@).take(i + 1));
        i += 1;
    }
    assert(history_messages(history@).take(history.len() as int) =~= history_messages(history@));
    let v = json_array(arr);
    Some(json_to_text(&v))
}

/// The message array follows the history turn by turn, in conversation
/// order: one content message per turn, the `i`-th built from the `i`-th
/// turn's role and text.
pub proof fn law_history_messages_in_order(history: Seq<Message>)
    ensures
        history_messages(history).len() == history.len(),
        forall|i: int|
            0 <= i < history.len() ==> #[trigger] history_messages(history)[i] == content_message(
                history[i].role@,
                history[i].content@,
            ),
{
}

} // verus!
