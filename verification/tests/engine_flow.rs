use lite_llm::engine::{BackendResponse, IncomingMessage, Message, SessionEvent};
use lite_llm::litert::{
    build_messages_json, build_system_json, build_tool_result_message, build_tools_json,
    build_user_message, clean_gemma_tokens, parse_response,
};
use lite_llm::llama::{
    assistant_message_json, common_prefix_len, incoming_message_json, merge_stops,
    parse_gemma_native_call, parse_llama_output, plan_prompt_decode, seed_messages,
    strip_thinking_block, Generation, KvClear, MAX_NEW_TOKENS,
};
use lite_llm::session::{
    build_system_message, cap_result, current_system_message, tool_result_text, LoopStep,
    SessionError, ToolLoop,
    MAX_RESULT_CHARS, MAX_TOOL_TURNS,
};
use lite_llm::executor::LocalTime;
use lite_llm::text::chars_of;
use lite_llm::tools::{datetime_tool, ResponseConfig, ResponseMode, ToolDefinition, ToolHandler};
use serde_json::Value;

fn json(text: &str) -> Value {
    serde_json::from_str(text).unwrap()
}

fn tool_call(r: &BackendResponse) -> (String, Value) {
    match r {
        BackendResponse::ToolCall { name, arguments } => (name.clone(), arguments.clone()),
        BackendResponse::Text(t) => panic!("expected a tool call, got text {t:?}"),
    }
}

fn text_of(r: &BackendResponse) -> String {
    match r {
        BackendResponse::Text(t) => t.clone(),
        BackendResponse::ToolCall { name, .. } => panic!("expected text, got a call of {name}"),
    }
}

fn msg(role: &str, content: &str) -> Message {
    Message { role: role.to_string(), content: content.to_string() }
}

// ── Gemma / llama output ─────────────────────────────────────────────────────

#[test]
fn strip_thinking_block_removes_thought() {
    assert_eq!(strip_thinking_block("<|channel>thought\nhmm\n<channel|>  Hello"), "Hello");
    assert_eq!(strip_thinking_block("Hello"), "Hello");
    assert_eq!(strip_thinking_block("<channel|>x<|channel>y"), "<channel|>x<|channel>y");
    assert_eq!(strip_thinking_block("Hi <|channel>t<channel|>there"), "Hi <|channel>t<channel|>there");
    assert_eq!(strip_thinking_block("  <|channel>t<channel|> there"), "there");
    assert_eq!(strip_thinking_block("<|channel>never closed"), "<|channel>never closed");
}

#[test]
fn gemma_native_call_with_wrapped_strings() {
    let r = parse_gemma_native_call("call:set_light{room:<|\"|>kitchen<|\"|>, on:true}").unwrap();
    let (name, args) = tool_call(&r);
    assert_eq!(name, "set_light");
    assert_eq!(args, json(r#"{"room":"kitchen","on":true}"#));
}

#[test]
fn gemma_native_call_numbers() {
    let r = parse_gemma_native_call("call:f{n:3, t:2.5, b:false, s:-7}").unwrap();
    let (name, args) = tool_call(&r);
    assert_eq!(name, "f");
    assert_eq!(args, json(r#"{"n":3,"t":2.5,"b":false,"s":-7}"#));
}

#[test]
fn gemma_native_call_text_values() {
    let r = parse_gemma_native_call("call:f{city:London, big:inf, yes:true}").unwrap();
    let (_, args) = tool_call(&r);
    assert_eq!(args, json(r#"{"city":"London","big":0,"yes":true}"#));
}

#[test]
fn gemma_native_call_rejects_malformed() {
    assert!(parse_gemma_native_call("set_light{on:true}").is_none());
    assert!(parse_gemma_native_call("call:set_light").is_none());
    assert!(parse_gemma_native_call("call:{on:true}").is_none());
    let (name, args) = tool_call(&parse_gemma_native_call("call:ping{}").unwrap());
    assert_eq!(name, "ping");
    assert_eq!(args, json("{}"));
}

#[test]
fn llama_output_native_call() {
    let r = parse_llama_output(
        "<|tool_call>call:set_light{room:<|\"|>kitchen<|\"|>, on:true}<tool_call|>",
    );
    let (name, args) = tool_call(&r);
    assert_eq!(name, "set_light");
    assert_eq!(args, json(r#"{"room":"kitchen","on":true}"#));
}

#[test]
fn llama_output_json_call() {
    let r = parse_llama_output(
        r#"<tool_call>{"name":"get_weather","arguments":{"location":"London"}}</tool_call>"#,
    );
    let (name, args) = tool_call(&r);
    assert_eq!(name, "get_weather");
    assert_eq!(args, json(r#"{"location":"London"}"#));
    let r = parse_llama_output(r#"<tool_call> {"name":"x","args":{"a":1}} "#);
    assert_eq!(tool_call(&r), ("x".to_string(), json(r#"{"a":1}"#)));
    let r = parse_llama_output(r#"<tool_call>{"name":"y"}</tool_call>"#);
    assert_eq!(tool_call(&r), ("y".to_string(), json("{}")));
}

#[test]
fn llama_output_openai_call() {
    let r = parse_llama_output(r#"{"tool_calls":[{"function":{"name":"f","arguments":"{\"a\":1}"}}]}"#);
    assert_eq!(tool_call(&r), ("f".to_string(), json(r#"{"a":1}"#)));
    let r = parse_llama_output(r#"{"tool_calls":[{"function":{"name":"g","arguments":{"b":2}}}]}"#);
    assert_eq!(tool_call(&r), ("g".to_string(), json(r#"{"b":2}"#)));
    let r = parse_llama_output(r#"{"tool_calls":[{"function":{"arguments":"bad"}}]}"#);
    assert_eq!(tool_call(&r), ("".to_string(), json("{}")));
}

#[test]
fn llama_output_plain_text() {
    assert_eq!(text_of(&parse_llama_output("Hello there")), "Hello there");
    assert_eq!(text_of(&parse_llama_output("  spaced  ")), "  spaced  ");
    assert_eq!(text_of(&parse_llama_output(r#"{"tool_calls":[]}"#)), r#"{"tool_calls":[]}"#);
    assert_eq!(
        text_of(&parse_llama_output("<|channel>thought\n...\n<channel|>The answer is 4.")),
        "The answer is 4."
    );
}

#[test]
fn llama_history_messages() {
    let seeded = seed_messages(Some("sys"), &vec![msg("user", "hi"), msg("assistant", "hello")]);
    assert_eq!(seeded.len(), 3);
    assert_eq!(seeded[0], json(r#"{"role":"system","content":"sys"}"#));
    assert_eq!(seeded[2], json(r#"{"role":"assistant","content":"hello"}"#));
    assert_eq!(seed_messages(None, &vec![]).len(), 0);
    let m = incoming_message_json(&IncomingMessage::ToolResult {
        tool_name: "t".to_string(),
        result: "r".to_string(),
    });
    assert_eq!(m, json(r#"{"role":"tool","name":"t","content":"r"}"#));
    let call = BackendResponse::ToolCall { name: "f".to_string(), arguments: json(r#"{"a":1}"#) };
    let a = assistant_message_json(&call, "ignored");
    assert_eq!(
        a,
        json(r#"{"role":"assistant","tool_calls":[{"type":"function","function":{"name":"f","arguments":{"a":1}}}]}"#)
    );
    let t = assistant_message_json(&BackendResponse::Text("x".to_string()), "raw out");
    assert_eq!(t, json(r#"{"role":"assistant","content":"raw out"}"#));
}

#[test]
fn kv_cache_planning() {
    assert_eq!(common_prefix_len(&vec![1, 2, 3], &vec![1, 2, 4, 5]), 2);
    assert_eq!(common_prefix_len(&vec![], &vec![1]), 0);
    assert_eq!(common_prefix_len(&vec![7, 8], &vec![7, 8]), 2);
    let p = plan_prompt_decode(5, 5).unwrap();
    assert!(matches!(p.clear, KvClear::From(4)));
    assert_eq!(p.decode_from, 4);
    let p = plan_prompt_decode(5, 0).unwrap();
    assert!(matches!(p.clear, KvClear::All));
    assert_eq!(p.decode_from, 0);
    let p = plan_prompt_decode(5, 3).unwrap();
    assert!(matches!(p.clear, KvClear::From(3)));
    assert_eq!(p.decode_from, 3);
    assert!(plan_prompt_decode(0, 0).is_none());
}

#[test]
fn stop_sequences_merged_once() {
    let s = merge_stops(vec!["<eos>".to_string(), "</s>".to_string()]);
    assert_eq!(s, vec!["<eos>", "</s>", "<end_of_turn>", "<tool_call|>"]);
}

#[test]
fn generation_streams_text_and_stops() {
    let stops = merge_stops(vec![]);
    let mut g = Generation::new();
    let s1 = g.on_piece("Hel", &stops);
    assert!(s1.forward && !s1.stop);
    let s2 = g.on_piece("lo<end_of", &stops);
    assert!(s2.forward && !s2.stop);
    let s3 = g.on_piece("_turn>", &stops);
    assert!(!s3.forward && s3.stop);
    assert_eq!(g.output, "Hello");
    assert_eq!(g.n_new, 3);
}

#[test]
fn generation_suppresses_tool_calls() {
    let stops = merge_stops(vec![]);
    let mut g = Generation::new();
    let s = g.on_piece("  <|tool_call>call:f{", &stops);
    assert!(!s.forward && !s.stop);
    let s = g.on_piece("}<tool_call|>", &stops);
    assert!(s.stop);
    assert_eq!(g.output, "  <|tool_call>call:f{}");
}

#[test]
fn generation_token_limit() {
    let stops: Vec<String> = vec![];
    let mut g = Generation { output: String::new(), n_new: MAX_NEW_TOKENS - 1 };
    let s = g.on_piece("x", &stops);
    assert!(s.stop && s.forward);
}

// ── LiteRT messages and responses ────────────────────────────────────────────

#[test]
fn litert_message_builders() {
    assert_eq!(build_user_message("hi"), r#"{"content":[{"text":"hi","type":"text"}],"role":"user"}"#);
    assert_eq!(build_tool_result_message("t", "r"), r#"{"content":"r","name":"t","role":"tool"}"#);
    assert_eq!(build_system_json("be brief"), r#"{"text":"be brief","type":"text"}"#);
    assert_eq!(build_messages_json(&vec![]), None);
    assert_eq!(
        build_messages_json(&vec![msg("user", "hi")]),
        Some(r#"[{"content":[{"text":"hi","type":"text"}],"role":"user"}]"#.to_string())
    );
    assert_eq!(build_tools_json(&vec![]), None);
    let tools = build_tools_json(&vec![datetime_tool()]).unwrap();
    let v = json(&tools);
    assert_eq!(v[0]["function"]["name"], "get_datetime");
}

#[test]
fn litert_response_openai_call_cleans_tokens() {
    let r = parse_response(r#"{"tool_calls":[{"function":{"name":"f","arguments":{"a":"<|\"x\"|>"}}}]}"#);
    assert_eq!(tool_call(&r), ("f".to_string(), json(r#"{"a":"x"}"#)));
    let r = parse_response(r#"{"tool_calls":[{"function":{"name":"g","arguments":"{\"b\":\"<|y|>\"}"}}]}"#);
    assert_eq!(tool_call(&r), ("g".to_string(), json(r#"{"b":"y"}"#)));
}

#[test]
fn litert_response_gemini_parts() {
    let r = parse_response(r#"{"content":[{"function_call":{"name":"g","args":{"k":"v"}}}]}"#);
    assert_eq!(tool_call(&r), ("g".to_string(), json(r#"{"k":"v"}"#)));
    let r = parse_response(r#"{"role":"assistant","content":[{"type":"text","text":"Hello"}]}"#);
    assert_eq!(text_of(&r), "Hello");
}

#[test]
fn litert_response_fallbacks() {
    assert_eq!(text_of(&parse_response("not json")), "not json");
    assert_eq!(text_of(&parse_response(r#""hey""#)), "hey");
    assert_eq!(text_of(&parse_response(r#"{"x":1}"#)), r#"{"x":1}"#);
}

#[test]
fn clean_tokens_walks_nested_values() {
    let v = json(r#"{"a":["<|\"q\"|>", {"b":"<|z|>"}], "n": 1}"#);
    assert_eq!(clean_gemma_tokens(&v), json(r#"{"a":["q", {"b":"z"}], "n": 1}"#));
}

// ── The tool loop ────────────────────────────────────────────────────────────

fn direct_tool() -> ToolDefinition {
    ToolDefinition {
        name: "lights".to_string(),
        description: "d".to_string(),
        parameters: json("{}"),
        handler: ToolHandler::Builtin { name: "x".to_string() },
        response: ResponseConfig { on_success: ResponseMode::Direct, on_error: ResponseMode::Llm },
        enabled: true,
    }
}

#[test]
fn system_message_carries_the_time() {
    let now = LocalTime {
        date: "Monday, March 4, 2024".to_string(),
        clock: "14:05".to_string(),
        zone: "CET".to_string(),
    };
    let m = build_system_message(&now, &vec![]);
    assert!(m.starts_with("Today is Monday, March 4, 2024. The current time is 14:05 CET. "));
    assert!(m.contains("You are a helpful assistant."));
    assert!(m.ends_with("summarising the result."));
    let facts = vec!["The kitchen light is called Ceiling".to_string(), "Bob is the user".to_string()];
    let m = build_system_message(&now, &facts);
    assert!(m.ends_with(
        "summarising the result.\n\nWhat you remember that may help:\n- The kitchen light is called Ceiling\n- Bob is the user"
    ));
    let current = current_system_message(&vec![]);
    let weekdays = ["Sunday", "Monday", "Tuesday", "Wednesday", "Thursday", "Friday", "Saturday"];
    assert!(weekdays.iter().any(|w| current.starts_with(&format!("Today is {w}, "))));
    let at = current.find(". The current time is ").unwrap() + ". The current time is ".len();
    let clock: Vec<char> = current[at..at + 5].chars().collect();
    assert!(clock[0].is_ascii_digit() && clock[1].is_ascii_digit() && clock[2] == ':');
    assert!(clock[3].is_ascii_digit() && clock[4].is_ascii_digit());
}

#[test]
fn loop_text_answer_finishes() {
    let mut l = ToolLoop::new();
    assert!(matches!(ToolLoop::start("hi"), LoopStep::Send(IncomingMessage::User(ref t)) if t == "hi"));
    let step = l.on_response(&vec![], BackendResponse::Text("hello".to_string()));
    match step {
        LoopStep::Finish(events) => {
            assert_eq!(events.len(), 1);
            match &events[0] {
                SessionEvent::Done(d) => {
                    assert!(d.done);
                    assert_eq!(d.delta, "");
                    assert!(d.tool_executions.is_empty());
                }
                _ => panic!("expected done"),
            }
        }
        _ => panic!("expected finish"),
    }
}

#[test]
fn loop_tool_result_back_to_model() {
    let tools = vec![datetime_tool()];
    let mut l = ToolLoop::new();
    let call = BackendResponse::ToolCall { name: "get_datetime".to_string(), arguments: json("{}") };
    let (i, name, args) = match l.on_response(&tools, call) {
        LoopStep::Execute { tool_index, name, arguments } => (tool_index, name, arguments),
        _ => panic!("expected execute"),
    };
    assert_eq!(i, 0);
    assert_eq!(l.tool_turns, 1);
    match l.on_tool_result(&tools, i, name, args, Ok("Monday".to_string())) {
        LoopStep::Send(IncomingMessage::ToolResult { tool_name, result }) => {
            assert_eq!(tool_name, "get_datetime");
            assert_eq!(result, "Monday");
        }
        _ => panic!("expected the result to go back"),
    }
    assert_eq!(l.tool_executions.len(), 1);
    match l.on_response(&tools, BackendResponse::Text("It is Monday".to_string())) {
        LoopStep::Finish(events) => match &events[0] {
            SessionEvent::Done(d) => {
                assert_eq!(d.tool_executions.len(), 1);
                assert_eq!(d.tool_executions[0].tool, "get_datetime");
                assert_eq!(d.tool_executions[0].result, "Monday");
            }
            _ => panic!("expected done"),
        },
        _ => panic!("expected finish"),
    }
}

#[test]
fn loop_direct_mode_streams_result() {
    let tools = vec![direct_tool()];
    let mut l = ToolLoop::new();
    let call = BackendResponse::ToolCall { name: "lights".to_string(), arguments: json("{}") };
    let (i, name, args) = match l.on_response(&tools, call) {
        LoopStep::Execute { tool_index, name, arguments } => (tool_index, name, arguments),
        _ => panic!("expected execute"),
    };
    match l.on_tool_result(&tools, i, name, args, Ok("lights on".to_string())) {
        LoopStep::Finish(events) => {
            assert_eq!(events.len(), 2);
            assert!(matches!(&events[0], SessionEvent::Delta(d) if d.delta == "lights on" && !d.done));
            assert!(matches!(&events[1], SessionEvent::Done(d) if d.done && d.tool_executions.len() == 1));
        }
        _ => panic!("expected finish"),
    }
}

#[test]
fn loop_error_uses_on_error_mode() {
    let tools = vec![direct_tool()];
    let mut l = ToolLoop::new();
    let call = BackendResponse::ToolCall { name: "lights".to_string(), arguments: json("{}") };
    let (i, name, args) = match l.on_response(&tools, call) {
        LoopStep::Execute { tool_index, name, arguments } => (tool_index, name, arguments),
        _ => panic!("expected execute"),
    };
    match l.on_tool_result(&tools, i, name, args, Err("HTTP 500".to_string())) {
        LoopStep::Send(IncomingMessage::ToolResult { result, .. }) => {
            assert_eq!(result, "error: HTTP 500")
        }
        _ => panic!("errors go back to the model"),
    }
}

#[test]
fn loop_unknown_tool_fails() {
    let mut l = ToolLoop::new();
    let call = BackendResponse::ToolCall { name: "nope".to_string(), arguments: json("{}") };
    match l.on_response(&vec![datetime_tool()], call) {
        LoopStep::Fail(e) => {
            assert!(matches!(e, SessionError::UnknownTool(ref n) if n == "nope"));
            assert_eq!(e.message(), "Model called unknown tool: nope");
        }
        _ => panic!("expected failure"),
    }
}

#[test]
fn loop_tool_turns_are_capped() {
    let tools = vec![datetime_tool()];
    let mut l = ToolLoop::new();
    let mut executed = 0;
    loop {
        let call = BackendResponse::ToolCall { name: "get_datetime".to_string(), arguments: json("{}") };
        match l.on_response(&tools, call) {
            LoopStep::Execute { tool_index, name, arguments } => {
                executed += 1;
                let _ = l.on_tool_result(&tools, tool_index, name, arguments, Ok("x".to_string()));
            }
            LoopStep::Fail(e) => {
                assert!(matches!(e, SessionError::TooManyToolTurns));
                assert_eq!(e.message(), "Exceeded maximum tool turns (10); aborting");
                break;
            }
            _ => panic!("unexpected step"),
        }
    }
    assert_eq!(executed, MAX_TOOL_TURNS);
}

#[test]
fn tool_results_are_capped() {
    let short = chars_of("short");
    assert_eq!(cap_result(&short), short);
    let long: String = "a".repeat(2000);
    let capped: String = cap_result(&chars_of(&long)).into_iter().collect();
    assert_eq!(capped, format!("{}…[truncated 2000 chars]", "a".repeat(MAX_RESULT_CHARS)));
    let exact: String = "é".repeat(750);
    assert_eq!(exact.len(), MAX_RESULT_CHARS);
    assert_eq!(cap_result(&chars_of(&exact)), chars_of(&exact));
    let t: String = tool_result_text(Err("boom".to_string())).into_iter().collect();
    assert_eq!(t, "error: boom");
}
