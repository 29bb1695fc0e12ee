use lite_llm::executor::{
    builtin_answer, execute_builtin, remember_outcome, http_outcome, mqtt_outcome, mqtt_wait_step, parse_broker,
    plan_execution, prepare_http, prepare_mqtt, LocalTime, MqttEvent, MqttReply, ToolAction,
    ToolError, MQTT_CHANNEL_CAPACITY, MQTT_KEEP_ALIVE_SECS,
};
use lite_llm::memory::{
    duplicate_check, insert_outcome, sanitise_fts_query, search_query, DuplicateCheck, InsertOutcome,
};
use lite_llm::tools::{
    datetime_tool, remember_tool, default_timeout_ms, default_true, substitute, ResponseConfig, ResponseMode,
    ToolDefinition, ToolHandler,
};
use serde_json::Value;

fn args(text: &str) -> Value {
    serde_json::from_str(text).unwrap()
}

fn http_tool(url: &str, headers: Vec<(String, String)>, body: Option<String>) -> ToolDefinition {
    ToolDefinition {
        name: "get_weather".to_string(),
        description: "Get current weather for a location".to_string(),
        parameters: args(r#"{"type":"object","properties":{"location":{"type":"string"}}}"#),
        handler: ToolHandler::Http { method: "GET".to_string(), url: url.to_string(), headers, body },
        response: ResponseConfig::default(),
        enabled: true,
    }
}

fn mqtt_tool(broker: &str, response_topic: Option<&str>) -> ToolDefinition {
    ToolDefinition {
        name: "set_light".to_string(),
        description: "Switch a light".to_string(),
        parameters: args(r#"{"type":"object"}"#),
        handler: ToolHandler::Mqtt {
            broker: broker.to_string(),
            command_topic: "felix/homekit/{room}/set/On".to_string(),
            payload: "{on}".to_string(),
            response_topic: response_topic.map(|t| t.to_string()),
            timeout_ms: 3000,
        },
        response: ResponseConfig::default(),
        enabled: true,
    }
}

// ── Template substitution ────────────────────────────────────────────────────

#[test]
fn substitute_plain_placeholder() {
    let a = args(r#"{"room":"kitchen"}"#);
    assert_eq!(substitute("felix/homekit/{room}/set/On", &a), "felix/homekit/kitchen/set/On");
}

#[test]
fn substitute_non_string_value_as_json() {
    let a = args(r#"{"n":5,"on":true,"list":[1,2]}"#);
    assert_eq!(substitute("{n}|{on}|{list}", &a), "5|true|[1,2]");
}

#[test]
fn substitute_every_occurrence() {
    let a = args(r#"{"x":"ab"}"#);
    assert_eq!(substitute("{x}-{x}-{y}", &a), "ab-ab-{y}");
}

#[test]
fn substitute_args_not_object_keeps_template() {
    let a = args(r#"[1,2]"#);
    assert_eq!(substitute("a/{room}", &a), "a/{room}");
}

#[test]
fn substitute_jinja_template() {
    let a = args(r#"{"room":"hall"}"#);
    assert_eq!(substitute("{{ room | upper }}!", &a), "HALL!");
}

#[test]
fn substitute_broken_jinja_keeps_template() {
    let a = args(r#"{"room":"hall"}"#);
    assert_eq!(substitute("{% if %}x", &a), "{% if %}x");
}

#[test]
fn tool_defaults() {
    assert!(default_true());
    assert_eq!(default_timeout_ms(), 3000);
    let r = ResponseConfig::default();
    assert!(matches!(r.on_success, ResponseMode::Llm));
    assert!(matches!(r.on_error, ResponseMode::Llm));
}

#[test]
fn function_declaration_shape() {
    let t = http_tool("https://wttr.in/{location}?format=4", vec![], None);
    let d = t.to_function_declaration();
    assert_eq!(d["type"], "function");
    assert_eq!(d["function"]["name"], "get_weather");
    assert_eq!(d["function"]["description"], "Get current weather for a location");
    assert_eq!(d["function"]["parameters"]["type"], "object");
}

#[test]
fn builtin_datetime_tool() {
    let t = datetime_tool();
    assert_eq!(t.name, "get_datetime");
    assert!(matches!(t.handler, ToolHandler::Builtin { ref name } if name == "datetime"));
}

// ── Memory queries ───────────────────────────────────────────────────────────

#[test]
fn sanitise_drops_short_words_and_joins_with_or() {
    assert_eq!(sanitise_fts_query("Turn on all the lights"), "Turn OR all OR the OR lights");
}

#[test]
fn sanitise_strips_fts_syntax() {
    assert_eq!(sanitise_fts_query("What's \"the\" (weather)?"), "Whats OR the OR weather");
    assert_eq!(sanitise_fts_query("a-b-c NOT* x"), "abc OR NOT");
}

#[test]
fn sanitise_counts_bytes_not_chars() {
    // Lengths count characters: "éé" is two characters (four bytes).
    assert_eq!(sanitise_fts_query("日本語 日本 é ab"), "日本語");
    assert_eq!(sanitise_fts_query("éé"), "");
    assert_eq!(sanitise_fts_query("don't (stop)!"), "dont OR stop");
}

#[test]
fn sanitise_empty_input() {
    assert_eq!(sanitise_fts_query(""), "");
    assert_eq!(sanitise_fts_query("  a b ?? "), "");
}

#[test]
fn sanitise_terms_are_clean_and_long() {
    let q = sanitise_fts_query("I'm at the living-room, ok? Lights: on!");
    assert_eq!(q, "the OR livingroom OR Lights");
    for term in q.split(" OR ") {
        assert!(term.chars().count() >= 3);
        assert!(term.chars().all(|c| c.is_alphanumeric()));
    }
}

#[test]
fn search_query_skips_empty() {
    assert_eq!(search_query("on a"), None);
    assert_eq!(search_query("kitchen lights"), Some("kitchen OR lights".to_string()));
}

#[test]
fn duplicate_check_asks_for_every_term() {
    match duplicate_check("Turn on all the lights!") {
        DuplicateCheck::Match(q) => assert_eq!(q, "Turn AND all AND the AND lights"),
        DuplicateCheck::Exact => panic!("expected a term query"),
    }
    assert!(matches!(duplicate_check("ok"), DuplicateCheck::Exact));
    assert!(matches!(duplicate_check(""), DuplicateCheck::Exact));
}

#[test]
fn insert_outcome_dedups() {
    let none: Vec<String> = vec![];
    assert!(matches!(insert_outcome(&none), InsertOutcome::Stored));
    assert!(matches!(insert_outcome(&vec!["x".to_string()]), InsertOutcome::AlreadyKnown));
    assert_eq!(InsertOutcome::Stored.as_str(), "stored");
    assert_eq!(InsertOutcome::AlreadyKnown.as_str(), "already known");
}

// ── Brokers ──────────────────────────────────────────────────────────────────

#[test]
fn parse_broker_host_and_port() {
    let (h, p) = parse_broker("localhost:1883").ok().unwrap();
    assert_eq!(h, "localhost");
    assert_eq!(p, 1883);
}

#[test]
fn parse_broker_splits_at_last_colon() {
    let (h, p) = parse_broker("::1:8883").ok().unwrap();
    assert_eq!(h, "::1");
    assert_eq!(p, 8883);
    let (h, p) = parse_broker(":80").ok().unwrap();
    assert_eq!(h, "");
    assert_eq!(p, 80);
}

#[test]
fn parse_broker_round_trip() {
    for (host, port) in [("a:b", 0u16), ("broker.local", 65535), ("", 1)] {
        let addr = format!("{host}:{port}");
        let (h, p) = parse_broker(&addr).ok().unwrap();
        assert_eq!(h, host);
        assert_eq!(p, port);
    }
}

#[test]
fn parse_broker_errors() {
    for bad in ["localhost", "1883", "host:", "host:99999", "host:-1", "host:x1"] {
        match parse_broker(bad) {
            Err(e) => {
                assert!(matches!(e, ToolError::InvalidBroker(ref b) if b == bad));
                assert_eq!(e.message(), format!("Invalid broker address: {bad}"));
            }
            Ok(_) => panic!("accepted {bad}"),
        }
    }
}

// ── Builtins and errors ──────────────────────────────────────────────────────

#[test]
fn builtin_datetime_answers() {
    let r = execute_builtin("datetime");
    let text = r.ok().unwrap();
    assert!(text.contains(", "));
}

#[test]
fn builtin_answer_formats_time() {
    let now = LocalTime {
        date: "Monday, March 4, 2024".to_string(),
        clock: "14:05".to_string(),
        zone: "CET".to_string(),
    };
    assert_eq!(builtin_answer("datetime", &now).ok().unwrap(), "Monday, March 4, 2024, 14:05 CET");
    assert_eq!(builtin_answer("x", &now).err().unwrap().message(), "Unknown builtin tool: x");
}

#[test]
fn builtin_unknown_is_error() {
    let e = execute_builtin("weather").err().unwrap();
    assert_eq!(e.message(), "Unknown builtin tool: weather");
}

#[test]
fn tool_error_messages() {
    let e = ToolError::HttpStatus { status: "404 Not Found".to_string(), body: "nope".to_string() };
    assert_eq!(e.message(), "HTTP 404 Not Found: nope");
    assert_eq!(ToolError::Mqtt("closed".to_string()).message(), "MQTT error: closed");
    assert_eq!(ToolError::MqttTimeout(3000).message(), "MQTT response timed out after 3000ms");
    assert_eq!(ToolError::Transport("boom".to_string()).message(), "boom");
}

// ── HTTP ─────────────────────────────────────────────────────────────────────

#[test]
fn prepare_http_substitutes_everything() {
    let a = args(r#"{"location":"London","key":"k1"}"#);
    let p = prepare_http(
        &"POST".to_string(),
        &"https://wttr.in/{location}?format=4".to_string(),
        &vec![("X-{key}".to_string(), "v-{location}".to_string())],
        &Some(r#"{"q":"{location}"}"#.to_string()),
        &a,
    );
    assert_eq!(p.method, "POST");
    assert_eq!(p.url, "https://wttr.in/London?format=4");
    assert_eq!(
        p.headers,
        vec![
            ("X-k1".to_string(), "v-London".to_string()),
            ("content-type".to_string(), "application/json".to_string()),
        ]
    );
    assert_eq!(p.body, Some(r#"{"q":"London"}"#.to_string()));
}

#[test]
fn prepare_http_without_body_has_no_content_type() {
    let a = args(r#"{}"#);
    let p = prepare_http(&"GET".to_string(), &"http://x/".to_string(), &vec![], &None, &a);
    assert!(p.headers.is_empty());
    assert_eq!(p.body, None);
}

#[test]
fn http_outcome_by_status() {
    assert_eq!(http_outcome(200, "200 OK".into(), "sunny".into()).ok().unwrap(), "sunny");
    assert_eq!(http_outcome(299, "299".into(), "x".into()).ok().unwrap(), "x");
    let e = http_outcome(500, "500 Internal Server Error".into(), "oops".into()).err().unwrap();
    assert_eq!(e.message(), "HTTP 500 Internal Server Error: oops");
    assert!(http_outcome(199, "199".into(), "".into()).is_err());
    assert!(http_outcome(300, "300 Multiple Choices".into(), "".into()).is_err());
}

// ── MQTT ─────────────────────────────────────────────────────────────────────

#[test]
fn prepare_mqtt_plan() {
    let a = args(r#"{"room":"kitchen","on":true}"#);
    let t = mqtt_tool("broker.local:1883", Some("felix/homekit/{room}/state"));
    match &t.handler {
        ToolHandler::Mqtt { broker, command_topic, payload, response_topic, timeout_ms } => {
            let p = prepare_mqtt(broker, command_topic, payload, response_topic, *timeout_ms, &a)
                .ok()
                .unwrap();
            assert_eq!(p.host, "broker.local");
            assert_eq!(p.port, 1883);
            assert_eq!(p.command_topic, "felix/homekit/kitchen/set/On");
            assert_eq!(p.payload, "true");
            assert_eq!(p.response_topic, Some("felix/homekit/kitchen/state".to_string()));
            assert_eq!(p.timeout_ms, 3000);
            assert!(p.client_id.starts_with("lite-llm-"));
            assert_eq!(p.client_id.len(), "lite-llm-".len() + 36);
            for (i, c) in p.client_id["lite-llm-".len()..].chars().enumerate() {
                if [8, 13, 18, 23].contains(&i) {
                    assert_eq!(c, '-');
                } else {
                    assert!(c.is_ascii_digit() || ('a'..='f').contains(&c));
                }
            }
        }
        _ => unreachable!(),
    }
    assert_eq!(MQTT_KEEP_ALIVE_SECS, 10);
    assert_eq!(MQTT_CHANNEL_CAPACITY, 16);
}

#[test]
fn mqtt_outcomes() {
    let a = args(r#"{"room":"kitchen","on":true}"#);
    let with_reply = match plan_execution(&mqtt_tool("h:1", Some("t")), &a) {
        ToolAction::Mqtt(p) => p,
        _ => unreachable!(),
    };
    let fire = match plan_execution(&mqtt_tool("h:1", None), &a) {
        ToolAction::Mqtt(p) => p,
        _ => unreachable!(),
    };
    assert_eq!(mqtt_outcome(&fire, MqttReply::Published).ok().unwrap(), "ok");
    assert_eq!(mqtt_outcome(&fire, MqttReply::TimedOut).ok().unwrap(), "ok");
    assert_eq!(
        mqtt_outcome(&with_reply, MqttReply::Message(b"on".to_vec())).ok().unwrap(),
        "on"
    );
    assert_eq!(
        mqtt_outcome(&with_reply, MqttReply::Message(vec![b'a', 0xff])).ok().unwrap(),
        "a\u{fffd}"
    );
    let e = mqtt_outcome(&with_reply, MqttReply::TimedOut).err().unwrap();
    assert_eq!(e.message(), "MQTT response timed out after 3000ms");
    let e = mqtt_outcome(&with_reply, MqttReply::Failed("reset".into())).err().unwrap();
    assert_eq!(e.message(), "MQTT error: reset");
}

#[test]
fn mqtt_wait_steps() {
    let a = args(r#"{"room":"kitchen","on":true}"#);
    let with_reply = match plan_execution(&mqtt_tool("h:1", Some("t")), &a) {
        ToolAction::Mqtt(p) => p,
        _ => unreachable!(),
    };
    let fire = match plan_execution(&mqtt_tool("h:1", None), &a) {
        ToolAction::Mqtt(p) => p,
        _ => unreachable!(),
    };
    assert!(matches!(mqtt_wait_step(&fire, MqttEvent::OutgoingPublish), Some(MqttReply::Published)));
    assert!(mqtt_wait_step(&fire, MqttEvent::Error("x".into())).is_none());
    assert!(mqtt_wait_step(&fire, MqttEvent::IncomingPublish(vec![1])).is_none());
    assert!(matches!(
        mqtt_wait_step(&with_reply, MqttEvent::IncomingPublish(b"on".to_vec())),
        Some(MqttReply::Message(ref m)) if m == b"on"
    ));
    assert!(matches!(
        mqtt_wait_step(&with_reply, MqttEvent::Error("reset".into())),
        Some(MqttReply::Failed(ref m)) if m == "reset"
    ));
    assert!(mqtt_wait_step(&with_reply, MqttEvent::OutgoingPublish).is_none());
    assert!(mqtt_wait_step(&with_reply, MqttEvent::Other).is_none());
}

#[test]
fn remember_calls() {
    let t = remember_tool();
    assert_eq!(t.name, "remember");
    assert_eq!(t.parameters["required"][0], "fact");
    match plan_execution(&t, &args(r#"{"fact":"The hallway light is called Hallway Lamp"}"#)) {
        ToolAction::Remember(f) => assert_eq!(f, "The hallway light is called Hallway Lamp"),
        _ => panic!("expected a memory to store"),
    }
    match plan_execution(&t, &args(r#"{"fact":3}"#)) {
        ToolAction::Done(Err(e)) => assert_eq!(e.message(), "Missing argument: fact"),
        _ => panic!("expected a missing argument"),
    }
    assert_eq!(remember_outcome(Some(Ok(InsertOutcome::Stored))).ok().unwrap(), "stored");
    assert_eq!(
        remember_outcome(Some(Ok(InsertOutcome::AlreadyKnown))).ok().unwrap(),
        "already known"
    );
    assert_eq!(remember_outcome(None).err().unwrap().message(), "memory is disabled");
    assert_eq!(remember_outcome(Some(Err("locked".into()))).err().unwrap().message(), "locked");
}

#[test]
fn plan_execution_by_handler() {
    let a = args(r#"{"location":"Paris"}"#);
    match plan_execution(&http_tool("https://wttr.in/{location}", vec![], None), &a) {
        ToolAction::Http(p) => assert_eq!(p.url, "https://wttr.in/Paris"),
        _ => panic!("expected an HTTP request"),
    }
    match plan_execution(&mqtt_tool("nohost", None), &a) {
        ToolAction::Done(Err(e)) => assert_eq!(e.message(), "Invalid broker address: nohost"),
        _ => panic!("expected a broker error"),
    }
    match plan_execution(&datetime_tool(), &a) {
        ToolAction::Done(Ok(_)) => {}
        _ => panic!("expected the date"),
    }
}

#[test]
fn query_splitting_agrees_with_std_classes() {
    for u in 0u32..=0x10FFFF {
        let Some(c) = char::from_u32(u) else { continue };
        let expected = if c.is_whitespace() {
            "abc OR def".to_string()
        } else if c.is_alphanumeric() {
            format!("abc{c}def")
        } else {
            "abcdef".to_string()
        };
        assert_eq!(sanitise_fts_query(&format!("abc{c}def")), expected, "code point {u:#x}");
    }
}
