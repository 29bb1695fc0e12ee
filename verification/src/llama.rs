//! Decisions of the llama.cpp backend: reading the model's output, and
//! driving prompt evaluation and token generation.
use vstd::prelude::*;

use crate::model_manager::string_views;
use crate::engine::{BackendResponse, IncomingMessage, Message, Response};
use crate::json::{
    entries_view, json_array, json_array_value, json_as_array, json_as_str, json_bool, json_bool_value,
    json_empty_object, json_field, json_float, json_float_value, float_char, json_get, json_int,
    json_int_value, json_is_object, json_is_object_exec, json_items, json_new_object,
    json_object, json_object_value, json_parsed, json_str, json_string, json_string_value,
    parse_json, Json,
};
use crate::text::{
    contains, ends_with, chars_eq, chars_of, clone_chars, find, find_exec, lemma_find_from_result,
    lemma_trim_lacks, parse_i64,
    parse_i64_exec, replace_all, replace_all_exec, slice_chars, split_char, split_char_exec,
    starts_with, starts_with_exec, string_of, trim, trim_end_braces, trim_end_braces_exec,
    trim_exec, trim_start, trim_start_exec, views,
};

verus! {

// ── Markers ──────────────────────────────────────────────────────────────────

pub open spec fn channel_open() -> Seq<char> {
    "<|channel>"@
}

pub open spec fn channel_close() -> Seq<char> {
    "<channel|>"@
}

pub open spec fn native_call_open() -> Seq<char> {
    "<|tool_call>"@
}

pub open spec fn native_call_close() -> Seq<char> {
    "<tool_call|>"@
}

pub open spec fn json_call_open() -> Seq<char> {
    "<tool_call>"@
}

pub open spec fn json_call_close() -> Seq<char> {
    "</tool_call>"@
}

/// The three wrappers Gemma puts around string values: `<|"|>`, `<|"`, `"|>`.
pub open spec fn quote_full() -> Seq<char> {
    "<|\"|>"@
}

pub open spec fn quote_open() -> Seq<char> {
    "<|\""@
}

pub open spec fn quote_close() -> Seq<char> {
    "\"|>"@
}

// ── Specification of the output parser ───────────────────────────────────────

/// The output with a Gemma thinking block (`<|channel>thought ... <channel|>`)
/// removed, with the whitespace after it, when the block starts the output
/// (after leading whitespace); any other output is kept as it is.
pub open spec fn strip_thinking(t: Seq<char>) -> Seq<char> {
    let lead = trim_start(t);
    if starts_with(lead, channel_open()) {
        match find(lead, channel_close()) {
            Some(end) => trim_start(lead.subrange(end + channel_close().len(), lead.len() as int)),
            None => t,
        }
    } else {
        t
    }
}

/// Every character of `v` may be part of a float.
pub open spec fn only_float_chars(v: Seq<char>) -> bool {
    forall|i: int| 0 <= i < v.len() ==> float_char(#[trigger] v[i])
}

/// A value written in a native call: an integer, a float (0 when it is not
/// finite), a boolean or, failing those, the text itself.
pub open spec fn gemma_value(v: Seq<char>) -> Json {
    match parse_i64(v) {
        Some(n) => json_int_value(n),
        None => match (if only_float_chars(v) {
            json_float_value(v)
        } else {
            None
        }) {
            Some(Some(x)) => x,
            Some(None) => json_int_value(0),
            None => if v == "true"@ {
                json_bool_value(true)
            } else if v == "false"@ {
                json_bool_value(false)
            } else {
                json_string_value(v)
            },
        },
    }
}

/// One `key:value` pair of a native call; pieces without a colon, and blank
/// pieces, give nothing.
pub open spec fn gemma_pair(raw: Seq<char>) -> Option<(Seq<char>, Json)> {
    let p = trim(raw);
    if p.len() == 0 {
        None
    } else {
        match find(p, ":"@) {
            None => None,
            Some(c) => Some(
                (trim(p.subrange(0, c)), gemma_value(trim(p.subrange(c + 1, p.len() as int)))),
            ),
        }
    }
}

/// The entries given by the comma-separated pieces, in order.
pub open spec fn gemma_entries(pieces: Seq<Seq<char>>) -> Seq<(Seq<char>, Json)>
    decreases pieces.len(),
{
    if pieces.len() == 0 {
        Seq::empty()
    } else {
        let init = gemma_entries(pieces.drop_last());
        match gemma_pair(pieces.last()) {
            Some(e) => init.push(e),
            None => init,
        }
    }
}

/// The string-value wrappers removed from a native call.
pub open spec fn gemma_unwrapped(t: Seq<char>) -> Seq<char> {
    replace_all(
        replace_all(replace_all(t, quote_full(), Seq::empty()), quote_open(), Seq::empty()),
        quote_close(),
        Seq::empty(),
    )
}

/// Gemma's native call syntax, `call:name{key:value, ...}`.
pub open spec fn gemma_native_call(text: Seq<char>) -> Option<Response> {
    let clean = trim(gemma_unwrapped(text));
    if !starts_with(clean, "call:"@) {
        None
    } else {
        let after = clean.subrange("call:"@.len() as int, clean.len() as int);
        match find(after, "{"@) {
            None => None,
            Some(b) => {
                let name = trim(after.subrange(0, b));
                if name.len() == 0 {
                    None
                } else {
                    let inner = trim_end_braces(after.subrange(b + 1, after.len() as int));
                    Some(
                        Response::ToolCall(
                            name,
                            json_object_value(gemma_entries(split_char(inner, ','))),
                        ),
                    )
                }
            },
        }
    }
}

/// The text after the first `open` marker, up to a following `close` marker
/// when there is one.
pub open spec fn marked_region(t: Seq<char>, open: Seq<char>, close: Seq<char>) -> Option<
    Seq<char>,
> {
    match find(t, open) {
        None => None,
        Some(s) => {
            let after = t.subrange(s + open.len(), t.len() as int);
            Some(
                match find(after, close) {
                    Some(e) => after.subrange(0, e),
                    None => after,
                },
            )
        },
    }
}

/// `{"name": ..., "arguments"|"args": ...}` inside `<tool_call>` markers.
pub open spec fn json_tool_call(region: Seq<char>) -> Option<Response> {
    match json_parsed(trim(region)) {
        None => None,
        Some(val) => match json_field(val, "name"@) {
            None => None,
            Some(n) => match json_str(n) {
                None => None,
                Some(name) => Some(
                    Response::ToolCall(
                        name,
                        match json_field(val, "arguments"@) {
                            Some(a) => a,
                            None => match json_field(val, "args"@) {
                                Some(a) => a,
                                None => json_empty_object(),
                            },
                        },
                    ),
                ),
            },
        },
    }
}

/// The first element of `val["tool_calls"]`, when that is a non-empty array.
pub open spec fn first_tool_call(val: Json) -> Option<Json> {
    match json_field(val, "tool_calls"@) {
        None => None,
        Some(calls) => match json_items(calls) {
            Some(items) => if items.len() > 0 {
                Some(items[0])
            } else {
                None
            },
            None => None,
        },
    }
}

/// `call["function"]["name"]` as a string, or empty.
pub open spec fn openai_name(call: Json) -> Seq<char> {
    match json_field(call, "function"@) {
        Some(f) => match json_field(f, "name"@) {
            Some(n) => match json_str(n) {
                Some(s) => s,
                None => Seq::empty(),
            },
            None => Seq::empty(),
        },
        None => Seq::empty(),
    }
}

/// `call["function"]["arguments"]`, when present.
pub open spec fn openai_arguments(call: Json) -> Option<Json> {
    match json_field(call, "function"@) {
        Some(f) => json_field(f, "arguments"@),
        None => None,
    }
}

/// Arguments of an OpenAI-format call: an object as is, a string parsed as
/// JSON (`{}` when it does not parse), anything else `{}`.
pub open spec fn openai_plain_arguments(call: Json) -> Json {
    match openai_arguments(call) {
        Some(v) => if json_is_object(v) {
            v
        } else {
            match json_str(v) {
                Some(s) => match json_parsed(s) {
                    Some(p) => p,
                    None => json_empty_object(),
                },
                None => json_empty_object(),
            }
        },
        None => json_empty_object(),
    }
}

/// `{"tool_calls": [...]}` output.
pub open spec fn openai_tool_call(t: Seq<char>) -> Option<Response> {
    if !starts_with(t, "{"@) {
        None
    } else {
        match json_parsed(t) {
            None => None,
            Some(val) => match first_tool_call(val) {
                None => None,
                Some(call) => Some(
                    Response::ToolCall(openai_name(call), openai_plain_arguments(call)),
                ),
            },
        }
    }
}

/// The response a llama.cpp generation stands for: a native Gemma call, a
/// JSON call in `<tool_call>` markers, an OpenAI `tool_calls` object, or
/// else text (with any thinking block removed).
pub open spec fn llama_response(text: Seq<char>) -> Response {
    let stripped = strip_thinking(text);
    let trimmed = trim(stripped);
    let native = match marked_region(trimmed, native_call_open(), native_call_close()) {
        Some(r) => gemma_native_call(r),
        None => None,
    };
    let json_call = match marked_region(trimmed, json_call_open(), json_call_close()) {
        Some(r) => json_tool_call(r),
        None => None,
    };
    match native {
        Some(resp) => resp,
        None => match json_call {
            Some(resp) => resp,
            None => match openai_tool_call(trimmed) {
                Some(resp) => resp,
                None => Response::Text(stripped),
            },
        },
    }
}

// ── Executable parser ────────────────────────────────────────────────────────

fn strip_thinking_chars(t: &Vec<char>) -> (r: Vec<char>)
    ensures
        r@ == strip_thinking(t@),
{
    let open = chars_of("<|channel>");
    let close = chars_of("<channel|>");
    let lead = trim_start_exec(t);
    if starts_with_exec(&lead, &open) {
        if let Some(end) = find_exec(&lead, &close) {
            proof {
                lemma_find_from_result(lead@, close@, 0);
            }
            let rest = slice_chars(&lead, end + close.len(), lead.len());
            return trim_start_exec(&rest);
        }
    }
    clone_chars(t)
}

/// Strips Gemma's thinking block (`<|channel>thought ... <channel|>`) from
/// the beginning of the output, with the whitespace after it.
pub fn strip_thinking_block(text: &str) -> (r: String)
    ensures
        r@ == strip_thinking(text@),
{
    let t = chars_of(text);
    let r = strip_thinking_chars(&t);
    string_of(&r)
}

fn gemma_value_exec(v: &Vec<char>) -> (r: Json)
    ensures
        r == gemma_value(v@),
{
    if let Some(n) = parse_i64_exec(v) {
        return json_int(n);
    }
    let text = string_of(v);
    match json_float(text.as_str()) {
        Some(Some(x)) => {
            return x;
        },
        Some(None) => {
            return json_int(0);
        },
        None => {},
    }
    let t = chars_of("true");
    let f = chars_of("false");
    if chars_eq(v, &t) {
        json_bool(true)
    } else if chars_eq(v, &f) {
        json_bool(false)
    } else {
        json_string(text)
    }
}

fn gemma_pair_exec(raw: &Vec<char>) -> (r: Option<(String, Json)>)
    ensures
        r matches Some(e) ==> gemma_pair(raw@) == Some((e.0@, e.1)),
        r is None ==> gemma_pair(raw@) is None,
{
    let p = trim_exec(raw);
    if p.len() == 0 {
        return None;
    }
    let colon = chars_of(":");
    proof {
        reveal_strlit(":");
    }
    match find_exec(&p, &colon) {
        None => None,
        Some(c) => {
            proof {
                lemma_find_from_result(p@, colon@, 0);
            }
            let k = slice_chars(&p, 0, c);
            let key = trim_exec(&k);
            let vraw = slice_chars(&p, c + 1, p.len());
            let v = trim_exec(&vraw);
            Some((string_of(&key), gemma_value_exec(&v)))
        },
    }
}

/// Parses Gemma's native call syntax as emitted by llama.cpp:
/// `call:func_name{key1:<|"|>val<|"|>, key2:123}`.
pub fn parse_gemma_native_call(text: &str) -> (r: Option<BackendResponse>)
    ensures
        r matches Some(resp) ==> gemma_native_call(text@) == Some(resp@),
        r is None ==> gemma_native_call(text@) is None,
{
    let t = chars_of(text);
    let empty: Vec<char> = Vec::new();
    let q1 = chars_of("<|\"|>");
    let q2 = chars_of("<|\"");
    let q3 = chars_of("\"|>");
    proof {
        reveal_strlit("<|\"|>");
        reveal_strlit("<|\"");
        reveal_strlit("\"|>");
    }
    let c1 = replace_all_exec(&t, &q1, &empty);
    let c2 = replace_all_exec(&c1, &q2, &empty);
    let c3 = replace_all_exec(&c2, &q3, &empty);
    let clean = trim_exec(&c3);
    let prefix = chars_of("call:");
    if !starts_with_exec(&clean, &prefix) {
        return None;
    }
    let after = slice_chars(&clean, prefix.len(), clean.len());
    let brace = chars_of("{");
    let b = match find_exec(&after, &brace) {
        None => {
            return None;
        },
        Some(b) => b,
    };
    proof {
        lemma_find_from_result(after@, brace@, 0);
        reveal_strlit("{");
    }
    let name_raw = slice_chars(&after, 0, b);
    let name = trim_exec(&name_raw);
    if name.len() == 0 {
        return None;
    }
    let inner_raw = slice_chars(&after, b + 1, after.len());
    let inner = trim_end_braces_exec(&inner_raw);
    let pieces = split_char_exec(&inner, ',');
    let mut entries: Vec<(String, Json)> = Vec::new();
    let mut i: usize = 0;
    while i < pieces.len()
        invariant
            i <= pieces.len(),
            entries_view(entries@) == gemma_entries(views(pieces@).take(i as int)),
        decreases pieces.len() - i,
    {
        let ghost t = views(pieces@).take(i + 1);
        proof {
            assert(t.drop_last() =~= views(pieces@).take(i as int));
            assert(t.last() == pieces@[i as int]@);
        }
        match gemma_pair_exec(&pieces[i]) {
            Some(e) => {
                let ghost before = entries@;
                entries.push(e);
                assert(entries_view(entries@) =~= entries_view(before).push((e.0@, e.1)));
            },
            None => {},
        }
        i += 1;
    }
    assert(views(pieces@).take(pieces.len() as int) =~= views(pieces@));
    let args = json_object(entries);
    Some(BackendResponse::ToolCall { name: string_of(&name), arguments: args })
}

fn marked_region_exec(t: &Vec<char>, open: &Vec<char>, close: &Vec<char>) -> (r: Option<
    Vec<char>,
>)
    ensures
        r matches Some(x) ==> marked_region(t@, open@, close@) == Some(x@),
        r is None ==> marked_region(t@, open@, close@) is None,
{
    match find_exec(t, open) {
        None => None,
        Some(s) => {
            proof {
                lemma_find_from_result(t@, open@, 0);
            }
            let after = slice_chars(t, s + open.len(), t.len());
            match find_exec(&after, close) {
                Some(e) => {
                    proof {
                        lemma_find_from_result(after@, close@, 0);
                    }
                    Some(slice_chars(&after, 0, e))
                },
                None => Some(after),
            }
        },
    }
}

fn json_tool_call_exec(region: &Vec<char>) -> (r: Option<BackendResponse>)
    ensures
        r matches Some(resp) ==> json_tool_call(region@) == Some(resp@),
        r is None ==> json_tool_call(region@) is None,
{
    let t = trim_exec(region);
    let text = string_of(&t);
    let val = match parse_json(text.as_str()) {
        None => {
            return None;
        },
        Some(v) => v,
    };
    let n = match json_get(&val, "name") {
        None => {
            return None;
        },
        Some(n) => n,
    };
    let name = match json_as_str(&n) {
        None => {
            return None;
        },
        Some(s) => s,
    };
    let arguments = match json_get(&val, "arguments") {
        Some(a) => a,
        None => match json_get(&val, "args") {
            Some(a) => a,
            None => json_new_object(),
        },
    };
    Some(BackendResponse::ToolCall { name, arguments })
}

/// `val["tool_calls"][0]`.
pub fn first_tool_call_exec(val: &Json) -> (r: Option<Json>)
    ensures
        r == first_tool_call(*val),
{
    match json_get(val, "tool_calls") {
        None => None,
        Some(calls) => match json_as_array(&calls) {
            Some(items) => if items.len() > 0 {
                Some(items[0].clone())
            } else {
                None
            },
            None => None,
        },
    }
}

/// `call["function"]["name"]` as a string, or empty.
pub fn openai_name_exec(call: &Json) -> (r: String)
    ensures
        r@ == openai_name(*call),
{
    match json_get(call, "function") {
        Some(f) => match json_get(&f, "name") {
            Some(n) => match json_as_str(&n) {
                Some(s) => s,
                None => String::new(),
            },
            None => String::new(),
        },
        None => String::new(),
    }
}

/// `call["function"]["arguments"]`.
pub fn openai_arguments_exec(call: &Json) -> (r: Option<Json>)
    ensures
        r == openai_arguments(*call),
{
    match json_get(call, "function") {
        Some(f) => json_get(&f, "arguments"),
        None => None,
    }
}

fn openai_plain_arguments_exec(call: &Json) -> (r: Json)
    ensures
        r == openai_plain_arguments(*call),
{
    match openai_arguments_exec(call) {
        Some(v) => if json_is_object_exec(&v) {
            v
        } else {
            match json_as_str(&v) {
                Some(s) => match parse_json(s.as_str()) {
                    Some(p) => p,
                    None => json_new_object(),
                },
                None => json_new_object(),
            }
        },
        None => json_new_object(),
    }
}

fn openai_tool_call_exec(t: &Vec<char>) -> (r: Option<BackendResponse>)
    ensures
        r matches Some(resp) ==> openai_tool_call(t@) == Some(resp@),
        r is None ==> openai_tool_call(t@) is None,
{
    let brace = chars_of("{");
    if !starts_with_exec(t, &brace) {
        return None;
    }
    let text = string_of(t);
    let val = match parse_json(text.as_str()) {
        None => {
            return None;
        },
        Some(v) => v,
    };
    match first_tool_call_exec(&val) {
        None => None,
        Some(call) => {
            let name = openai_name_exec(&call);
            let arguments = openai_plain_arguments_exec(&call);
            Some(BackendResponse::ToolCall { name, arguments })
        },
    }
}

/// Reads a llama.cpp generation: a tool call in any of the formats the
/// models emit, or else the text with any thinking block removed.
pub fn parse_llama_output(text: &str) -> (r: BackendResponse)
    ensures
        r@ == llama_response(text@),
{
    let t = chars_of(text);
    let stripped = strip_thinking_chars(&t);
    let trimmed = trim_exec(&stripped);
    let nopen = chars_of("<|tool_call>");
    let nclose = chars_of("<tool_call|>");
    if let Some(region) = marked_region_exec(&trimmed, &nopen, &nclose) {
        let call_text = string_of(&region);
        if let Some(resp) = parse_gemma_native_call(call_text.as_str()) {
            return resp;
        }
    }
    let jopen = chars_of("<tool_call>");
    let jclose = chars_of("</tool_call>");
    if let Some(region) = marked_region_exec(&trimmed, &jopen, &jclose) {
        if let Some(resp) = json_tool_call_exec(&region) {
            return resp;
        }
    }
    if let Some(resp) = openai_tool_call_exec(&trimmed) {
        return resp;
    }
    BackendResponse::Text(string_of(&stripped))
}


// ── Conversation history ─────────────────────────────────────────────────────

/// `{"role": role, "content": content}`.
pub open spec fn chat_message(role: Seq<char>, content: Seq<char>) -> Json {
    json_object_value(seq![("role"@, json_string_value(role)), ("content"@, json_string_value(content))])
}

/// `{"role":"tool","name": name,"content": result}`.
pub open spec fn tool_message(name: Seq<char>, result: Seq<char>) -> Json {
    json_object_value(
        seq![
            ("role"@, json_string_value("tool"@)),
            ("name"@, json_string_value(name)),
            ("content"@, json_string_value(result)),
        ],
    )
}

/// `{"role":"assistant","tool_calls":[{"type":"function","function":{"name":..,"arguments":..}}]}`.
pub open spec fn assistant_call_message(name: Seq<char>, arguments: Json) -> Json {
    json_object_value(
        seq![
            ("role"@, json_string_value("assistant"@)),
            (
                "tool_calls"@,
                json_array_value(
                    seq![
                        json_object_value(
                            seq![
                                ("type"@, json_string_value("function"@)),
                                (
                                    "function"@,
                                    json_object_value(
                                        seq![
                                            ("name"@, json_string_value(name)),
                                            ("arguments"@, arguments),
                                        ],
                                    ),
                                ),
                            ],
                        ),
                    ],
                ),
            ),
        ],
    )
}

pub open spec fn incoming_view(msg: IncomingMessage) -> Json {
    match msg {
        IncomingMessage::User(text) => chat_message("user"@, text@),
        IncomingMessage::ToolResult { tool_name, result } => tool_message(tool_name@, result@),
    }
}

/// The turn stored after a response: a tool call as an OpenAI `tool_calls`
/// message, so that the chat template formats it as one; text as is.
pub open spec fn assistant_view(response: Response, output: Seq<char>) -> Json {
    match response {
        Response::ToolCall(name, arguments) => assistant_call_message(name, arguments),
        Response::Text(_) => chat_message("assistant"@, output),
    }
}

/// The opening messages of a conversation: the system prompt, if any, then
/// the prior turns.
pub open spec fn seed_view(system: Option<Seq<char>>, history: Seq<Message>) -> Seq<Json> {
    let head = match system {
        Some(s) => seq![chat_message("system"@, s)],
        None => Seq::empty(),
    };
    head + history.map_values(|m: Message| chat_message(m.role@, m.content@))
}

fn string_json(s: &str) -> (r: Json)
    ensures
        r == json_string_value(s@),
{
    json_string(s.to_owned())
}

fn chat_message_exec(role: &str, content: &str) -> (r: Json)
    ensures
        r == chat_message(role@, content@),
{
    let mut es: Vec<(String, Json)> = Vec::new();
    es.push(("role".to_owned(), string_json(role)));
    es.push(("content".to_owned(), string_json(content)));
    assert(entries_view(es@) =~= seq![
        ("role"@, json_string_value(role@)),
        ("content"@, json_string_value(content@)),
    ]);
    json_object(es)
}

/// The history entry for a message sent into the conversation.
pub fn incoming_message_json(msg: &IncomingMessage) -> (r: Json)
    ensures
        r == incoming_view(*msg),
{
    match msg {
        IncomingMessage::User(text) => chat_message_exec("user", text.as_str()),
        IncomingMessage::ToolResult { tool_name, result } => {
            let mut es: Vec<(String, Json)> = Vec::new();
            es.push(("role".to_owned(), string_json("tool")));
            es.push(("name".to_owned(), string_json(tool_name.as_str())));
            es.push(("content".to_owned(), string_json(result.as_str())));
            assert(entries_view(es@) =~= seq![
                ("role"@, json_string_value("tool"@)),
                ("name"@, json_string_value(tool_name@)),
                ("content"@, json_string_value(result@)),
            ]);
            json_object(es)
        },
    }
}

/// The history entry for the model's response.
pub fn assistant_message_json(response: &BackendResponse, output: &str) -> (r: Json)
    ensures
        r == assistant_view(response@, output@),
{
    match response {
        BackendResponse::ToolCall { name, arguments } => {
            let mut f: Vec<(String, Json)> = Vec::new();
            f.push(("name".to_owned(), string_json(name.as_str())));
            f.push(("arguments".to_owned(), arguments.clone()));
            assert(entries_view(f@) =~= seq![
                ("name"@, json_string_value(name@)),
                ("arguments"@, *arguments),
            ]);
            let function = json_object(f);
            let mut c: Vec<(String, Json)> = Vec::new();
            c.push(("type".to_owned(), string_json("function")));
            c.push(("function".to_owned(), function));
            assert(entries_view(c@) =~= seq![
                ("type"@, json_string_value("function"@)),
                ("function"@, json_object_value(entries_view(f@))),
            ]);
            let call = json_object(c);
            let mut calls: Vec<Json> = Vec::new();
            calls.push(call);
            let arr = json_array(calls);
            assert(calls@ =~= seq![json_object_value(entries_view(c@))]);
            let mut m: Vec<(String, Json)> = Vec::new();
            m.push(("role".to_owned(), string_json("assistant")));
            m.push(("tool_calls".to_owned(), arr));
            assert(entries_view(m@) =~= seq![
                ("role"@, json_string_value("assistant"@)),
                ("tool_calls"@, json_array_value(calls@)),
            ]);
            json_object(m)
        },
        BackendResponse::Text(_) => chat_message_exec("assistant", output),
    }
}

/// The messages a new conversation starts from.
pub fn seed_messages(system: Option<&str>, history: &Vec<Message>) -> (r: Vec<Json>)
    ensures
        r@ == seed_view(
            match system {
                Some(s) => Some(s@),
                None => None,
            },
            history@,
        ),
{
    let mut r: Vec<Json> = Vec::new();
    if let Some(sys) = system {
        r.push(chat_message_exec("system", sys));
    }
    let ghost head = r@;
    let ghost hv = history@.map_values(|m: Message| chat_message(m.role@, m.content@));
    let mut i: usize = 0;
    while i < history.len()
        invariant
            i <= history.len(),
            hv == history@.map_values(|m: Message| chat_message(m.role@, m.content@)),
            r@ == head + hv.take(i as int),
        decreases history.len() - i,
    {
        r.push(chat_message_exec(history[i].role.as_str(), history[i].content.as_str()));
        assert(hv.take(i + 1) =~= hv.take(i as int).push(hv[i as int]));
        i += 1;
    }
    assert(hv.take(history.len() as int) =~= hv);
    proof {
        if system is None {
            assert(head =~= Seq::<Json>::empty());
        }
    }
    r
}

// ── Prompt evaluation ────────────────────────────────────────────────────────

/// Length of the longest common prefix of two token sequences.
pub open spec fn common_prefix(a: Seq<i32>, b: Seq<i32>) -> nat
    decreases a.len(),
{
    if a.len() == 0 || b.len() == 0 || a[0] != b[0] {
        0
    } else {
        1 + common_prefix(a.drop_first(), b.drop_first())
    }
}

/// How many leading tokens of the prompt are already in the KV cache.
pub fn common_prefix_len(tokens: &Vec<i32>, cached: &Vec<i32>) -> (n: usize)
    ensures
        n == common_prefix(tokens@, cached@),
        n <= tokens.len(),
        n <= cached.len(),
{
    let mut i: usize = 0;
    assert(tokens@.subrange(0, tokens.len() as int) =~= tokens@);
    assert(cached@.subrange(0, cached.len() as int) =~= cached@);
    while i < tokens.len() && i < cached.len() && tokens[i] == cached[i]
        invariant
            i <= tokens.len(),
            i <= cached.len(),
            common_prefix(tokens@, cached@) == i + common_prefix(
                tokens@.subrange(i as int, tokens.len() as int),
                cached@.subrange(i as int, cached.len() as int),
            ),
        decreases tokens.len() - i,
    {
        let ghost a = tokens@.subrange(i as int, tokens.len() as int);
        let ghost b = cached@.subrange(i as int, cached.len() as int);
        assert(a.drop_first() =~= tokens@.subrange(i + 1, tokens.len() as int));
        assert(b.drop_first() =~= cached@.subrange(i + 1, cached.len() as int));
        i += 1;
    }
    i
}

/// Which part of the KV cache to clear before decoding.
pub enum KvClear {
    /// The whole cache.
    All,
    /// Every position from this one on.
    From(usize),
}

/// How the prompt is evaluated: the cache positions to clear, and the first
/// prompt token to decode.
pub struct DecodePlan {
    pub clear: KvClear,
    pub decode_from: usize,
}

/// Plans prompt evaluation from the prompt length and how much of it is
/// cached. Only the uncached suffix is decoded; when the whole prompt is
/// cached, the last prompt token is decoded again so that the logits belong
/// to this prompt. An empty prompt is refused.
pub fn plan_prompt_decode(n_prompt: usize, n_common: usize) -> (r: Option<DecodePlan>)
    requires
        n_common <= n_prompt,
    ensures
        n_prompt == 0 <==> r is None,
        r matches Some(p) ==> {
            &&& n_common == n_prompt ==> p.decode_from == n_prompt - 1 && p.clear == KvClear::From(
                (n_prompt - 1) as usize,
            )
            &&& n_common < n_prompt && n_common == 0 ==> p.decode_from == 0 && p.clear
                == KvClear::All
            &&& n_common < n_prompt && n_common > 0 ==> p.decode_from == n_common && p.clear
                == KvClear::From(n_common)
        },
{
    if n_prompt == 0 {
        return None;
    }
    if n_common == n_prompt {
        let last = n_prompt - 1;
        Some(DecodePlan { clear: KvClear::From(last), decode_from: last })
    } else if n_common == 0 {
        Some(DecodePlan { clear: KvClear::All, decode_from: 0 })
    } else {
        Some(DecodePlan { clear: KvClear::From(n_common), decode_from: n_common })
    }
}

// ── Token generation ─────────────────────────────────────────────────────────

/// The most tokens one response may have.
pub const MAX_NEW_TOKENS: usize = 2048;


/// Stop sequences added to the template's own: Gemma's end-of-turn markers
/// and the end of a native tool call.
pub open spec fn extra_stops() -> Seq<Seq<char>> {
    seq!["<eos>"@, "<end_of_turn>"@, "<tool_call|>"@]
}

/// `stops` with each of `more` appended unless already present.
pub open spec fn with_stops(stops: Seq<Seq<char>>, more: Seq<Seq<char>>) -> Seq<Seq<char>>
    decreases more.len(),
{
    if more.len() == 0 {
        stops
    } else {
        let s = with_stops(stops, more.drop_last());
        if s.contains(more.last()) {
            s
        } else {
            s.push(more.last())
        }
    }
}

fn contains_string(v: &Vec<String>, x: &String) -> (b: bool)
    ensures
        b == string_views(v@).contains(x@),
{
    let mut i: usize = 0;
    while i < v.len()
        invariant
            i <= v.len(),
            forall|j: int| 0 <= j < i ==> string_views(v@)[j] != x@,
        decreases v.len() - i,
    {
        if v[i] == *x {
            assert(string_views(v@)[i as int] == x@);
            return true;
        }
        i += 1;
    }
    false
}

/// The template's stop sequences with the Gemma markers added.
pub fn merge_stops(template_stops: Vec<String>) -> (r: Vec<String>)
    ensures
        string_views(r@) == with_stops(string_views(template_stops@), extra_stops()),
{
    let mut stops = template_stops;
    let ghost base = string_views(stops@);
    let mut extra: Vec<String> = Vec::new();
    extra.push("<eos>".to_owned());
    extra.push("<end_of_turn>".to_owned());
    extra.push("<tool_call|>".to_owned());
    assert(string_views(extra@) =~= extra_stops());
    let mut i: usize = 0;
    while i < extra.len()
        invariant
            i <= extra.len(),
            string_views(extra@) == extra_stops(),
            string_views(stops@) == with_stops(base, extra_stops().take(i as int)),
        decreases extra.len() - i,
    {
        let ghost t = extra_stops().take(i + 1);
        assert(t.drop_last() =~= extra_stops().take(i as int));
        assert(t.last() == extra@[i as int]@);
        if !contains_string(&stops, &extra[i]) {
            let ghost before = string_views(stops@);
            stops.push(extra[i].clone());
            assert(string_views(stops@) =~= before.push(extra@[i as int]@));
        }
        i += 1;
    }
    assert(extra_stops().take(3) =~= extra_stops());
    stops
}

/// The first stop sequence the output ends with.
pub open spec fn first_stop(output: Seq<char>, stops: Seq<Seq<char>>) -> Option<Seq<char>>
    decreases stops.len(),
{
    if stops.len() == 0 {
        None
    } else if ends_with(output, stops[0]) {
        Some(stops[0])
    } else {
        first_stop(output, stops.drop_first())
    }
}

/// Where the first stop sequence the output ends with begins.
fn find_stop(out: &Vec<char>, stops: &Vec<String>) -> (r: Option<usize>)
    ensures
        r matches Some(n) ==> n <= out.len() && first_stop(out@, string_views(stops@)) == Some(
            out@.subrange(n as int, out.len() as int),
        ),
        r is None ==> first_stop(out@, string_views(stops@)) is None,
{
    let mut k: usize = 0;
    assert(string_views(stops@).subrange(0, stops.len() as int) =~= string_views(stops@));
    while k < stops.len()
        invariant
            k <= stops.len(),
            first_stop(out@, string_views(stops@)) == first_stop(
                out@,
                string_views(stops@).subrange(k as int, stops.len() as int),
            ),
        decreases stops.len() - k,
    {
        let ghost rest = string_views(stops@).subrange(k as int, stops.len() as int);
        assert(rest[0] == stops@[k as int]@);
        assert(rest.drop_first() =~= string_views(stops@).subrange(k + 1, stops.len() as int));
        let s = chars_of(stops[k].as_str());
        if crate::text::ends_with_exec(&out, &s) {
            assert(first_stop(out@, rest) == Some(s@));
            assert(out@.subrange(out.len() - s.len(), out.len() as int) =~= s@);
            return Some(out.len() - s.len());
        }
        k += 1;
    }
    assert(string_views(stops@).subrange(stops.len() as int, stops.len() as int) =~= Seq::<
        Seq<char>,
    >::empty());
    None
}

/// Output that begins (after whitespace) a tool call is not streamed.
pub open spec fn is_tool_call_output(output: Seq<char>) -> bool {
    let t = trim_start(output);
    starts_with(t, native_call_open()) || starts_with(t, json_call_open())
}

/// What to do after a generated piece: whether to stream it, and whether
/// generation ends.
pub struct PieceStep {
    pub forward: bool,
    pub stop: bool,
}

/// The text generated so far and the number of tokens it took.
pub struct Generation {
    pub output: String,
    pub n_new: usize,
}

impl Generation {
    pub fn new() -> (r: Generation)
        ensures
            r.output@ == Seq::<char>::empty(),
            r.n_new == 0,
    {
        Generation { output: String::new(), n_new: 0 }
    }

    /// Takes the piece of text a sampled token decodes to. A stop sequence
    /// at the end of the output is cut off and ends generation; otherwise
    /// the piece is streamed unless the output is a tool call, and
    /// generation ends at `MAX_NEW_TOKENS` tokens.
    pub fn on_piece(&mut self, piece: &str, stops: &Vec<String>) -> (r: PieceStep)
        requires
            old(self).n_new < MAX_NEW_TOKENS,
        ensures
            ({
                let out = old(self).output@ + piece@;
                &&& final(self).n_new == old(self).n_new + 1
                &&& match first_stop(out, string_views(stops@)) {
                    Some(s) => {
                        &&& final(self).output@ == out.subrange(0, out.len() - s.len())
                        &&& r == PieceStep { forward: false, stop: true }
                    },
                    None => {
                        &&& final(self).output@ == out
                        &&& r.forward == !is_tool_call_output(out)
                        &&& starts_with(trim_start(out), "<tool_call>"@) ==> !r.forward
                        &&& starts_with(trim_start(out), "<|tool_call>"@) ==> !r.forward
                        &&& r.stop == (final(self).n_new >= MAX_NEW_TOKENS)
                    },
                }
            }),
    {
        let ghost expected = old(self).output@ + piece@;
        let mut out = chars_of(self.output.as_str());
        let p = chars_of(piece);
        crate::text::append_chars(&mut out, &p);
        self.n_new = self.n_new + 1;
        let found = find_stop(&out, stops);
        if let Some(n) = found {
            let cut = slice_chars(&out, 0, n);
            self.output = string_of(&cut);
            return PieceStep { forward: false, stop: true };
        }
        let t = trim_start_exec(&out);
        let o1 = chars_of("<|tool_call>");
        let o2 = chars_of("<tool_call>");
        let is_call = starts_with_exec(&t, &o1) || starts_with_exec(&t, &o2);
        self.output = string_of(&out);
        PieceStep { forward: !is_call, stop: self.n_new >= MAX_NEW_TOKENS }
    }
}


/// The stop sequence found in an output is the first of the list that the
/// output ends with; none is found when the output ends with none of them.
pub proof fn law_first_stop(output: Seq<char>, stops: Seq<Seq<char>>)
    ensures
        match first_stop(output, stops) {
            Some(s) => exists|i: int|
                0 <= i < stops.len() && #[trigger] stops[i] == s && ends_with(output, s) && forall|
                    j: int,
                | 0 <= j < i ==> !ends_with(output, #[trigger] stops[j]),
            None => forall|i: int| 0 <= i < stops.len() ==> !ends_with(output, #[trigger] stops[i]),
        },
    decreases stops.len(),
{
    if stops.len() > 0 && !ends_with(output, stops[0]) {
        let rest = stops.drop_first();
        law_first_stop(output, rest);
        match first_stop(output, rest) {
            Some(s) => {
                let i = choose|i: int|
                    0 <= i < rest.len() && #[trigger] rest[i] == s && ends_with(output, s) && forall|
                        j: int,
                    | 0 <= j < i ==> !ends_with(output, #[trigger] rest[j]);
                assert(stops[i + 1] == s);
                assert forall|j: int| 0 <= j < i + 1 implies !ends_with(
                    output,
                    #[trigger] stops[j],
                ) by {
                    if j > 0 {
                        assert(stops[j] == rest[j - 1]);
                    }
                }
            },
            None => {
                assert forall|i: int| 0 <= i < stops.len() implies !ends_with(
                    output,
                    #[trigger] stops[i],
                ) by {
                    if i > 0 {
                        assert(stops[i] == rest[i - 1]);
                    }
                }
            },
        }
    }
}

/// Output whose start, after whitespace, is a tool-call marker, in the JSON
/// form `<tool_call>` or the native form `<|tool_call>`, is a tool call; no
/// other output is.
pub proof fn law_tool_call_markers(o: Seq<char>)
    ensures
        is_tool_call_output(o) <==> (starts_with(trim_start(o), "<tool_call>"@) || starts_with(
            trim_start(o),
            "<|tool_call>"@,
        )),
{
}

/// In a native-call pair the key ends at the first colon: a key without a
/// colon, then a colon, then any value (colons included) gives the key
/// trimmed and the value read from the rest trimmed.
pub proof fn law_gemma_pair_first_colon(k: Seq<char>, v: Seq<char>)
    requires
        forall|i: int| 0 <= i < k.len() ==> k[i] != ':',
    ensures
        gemma_pair(k + ":"@ + v) == Some((trim(k), gemma_value(trim(v)))),
{
    reveal_strlit(":");
    let c: Seq<char> = ":"@;
    assert(!crate::text::is_whitespace_char(':'));
    let raw = k + c + v;
    assert((c + v)[0] == ':');
    crate::text::lemma_trim_start_append(k, c + v);
    assert(raw =~= k + (c + v));
    let ks = trim_start(k);
    assert((ks + c).last() == ':');
    crate::text::lemma_trim_end_append(ks + c, v);
    assert(ks + (c + v) =~= (ks + c) + v);
    let p = (ks + c) + crate::text::trim_end(v);
    assert(trim(raw) == p);
    let i0 = crate::text::lemma_trim_start_offset(k);
    let n = ks.len() as int;
    assert forall|m: int| 0 <= m < n implies !crate::text::matches_at(p, c, m) by {
        assert(p[m] == ks[m]);
        assert(ks[m] == k[i0 + m]);
        if crate::text::matches_at(p, c, m) {
            assert(p.subrange(m, m + 1)[0] == p[m]);
        }
    }
    crate::text::lemma_find_from_none_before(p, c, 0, n);
    assert(p.subrange(n, n + 1) =~= c);
    assert(crate::text::matches_at(p, c, n));
    assert(find(p, c) == Some(n));
    assert(p.subrange(0, n) =~= ks);
    assert(p.subrange(n + 1, p.len() as int) =~= crate::text::trim_end(v));
    crate::text::lemma_trim_of_trim_start(k);
    crate::text::lemma_trim_of_trim_end(v);
}

/// A value that holds a character no number can hold is kept as text,
/// unless it is `true` or `false`.
pub proof fn law_gemma_text_value(v: Seq<char>)
    requires
        !only_float_chars(v),
        v != "true"@,
        v != "false"@,
    ensures
        gemma_value(v) == json_string_value(v),
{
    let i = choose|i: int| 0 <= i < v.len() && !float_char(#[trigger] v[i]);
    assert(!crate::text::is_digit(v[i]));
    if v.len() > 0 && (v[0] == '+' || v[0] == '-') {
        assert(i > 0);
        let rest = v.drop_first();
        assert(rest[i - 1] == v[i]);
        assert(!crate::text::all_digits(rest));
    } else {
        assert(!crate::text::all_digits(v));
    }
    assert(parse_i64(v) is None);
}


/// Output that, with any leading thinking block stripped, holds no tool-call
/// marker and does not start (after whitespace) with `{` is a text answer:
/// the stripped output as it is.
pub proof fn law_plain_output_is_text(text: Seq<char>)
    requires
        !contains(strip_thinking(text), native_call_open()),
        !contains(strip_thinking(text), json_call_open()),
        !starts_with(trim(strip_thinking(text)), "{"@),
    ensures
        llama_response(text) == Response::Text(strip_thinking(text)),
{
    let s = strip_thinking(text);
    lemma_trim_lacks(s, native_call_open());
    lemma_trim_lacks(s, json_call_open());
}

} // verus!
