use lite_llm::api::{
    chat_tools, command_tools, delete_tool_status, list_models_response, loaded_response,
    memory_entries, plan_chat, plan_command, remember_reply, split_chat_messages, ChatRequest,
    CommandRequest, STATUS_INTERNAL_SERVER_ERROR, STATUS_NOT_FOUND, STATUS_NO_CONTENT,
    STATUS_SERVICE_UNAVAILABLE,
};
use lite_llm::config::{
    default_context_size, default_gpu_layers, default_top_k, DbConfig, MemoryConfig, ServerConfig,
};
use lite_llm::download::{
    first_litertlm_exec, Download, DownloadEvent, DownloadRequest, DownloadStep, ListingError,
    DEFAULT_MODELS_DIR, DEFAULT_REPO_ID, PROGRESS_INTERVAL,
};
use lite_llm::engine::Message;
use lite_llm::memory::InsertOutcome;
use lite_llm::model_manager::{
    classify_model_path, hf_auto_pick, hf_get, is_gguf, pick_model_file, resolve_path, HubOutcome,
    HubStep, ModelError, ModelManager, ModelSource,
};
use lite_llm::registry::{ToolRegistry, ToolRow};
use lite_llm::tools::{ResponseConfig, ToolDefinition, ToolHandler};

fn user_tool(name: &str) -> ToolDefinition {
    ToolDefinition {
        name: name.to_string(),
        description: format!("{name} tool"),
        parameters: serde_json::from_str("{}").unwrap(),
        handler: ToolHandler::Http {
            method: "GET".to_string(),
            url: format!("http://x/{name}"),
            headers: vec![],
            body: None,
        },
        response: ResponseConfig::default(),
        enabled: true,
    }
}

fn names(tools: &[ToolDefinition]) -> Vec<String> {
    tools.iter().map(|t| t.name.clone()).collect()
}

fn strings(v: &[&str]) -> Vec<String> {
    v.iter().map(|s| s.to_string()).collect()
}

fn msg(role: &str, content: &str) -> Message {
    Message { role: role.to_string(), content: content.to_string() }
}

// ── Configuration ────────────────────────────────────────────────────────────

#[test]
fn config_defaults() {
    let s = ServerConfig::default();
    assert_eq!(s.host, "127.0.0.1");
    assert_eq!(s.port, 8080);
    assert_eq!(s.listen_address(), "127.0.0.1:8080");
    assert_eq!(DbConfig::default().path, "~/.local/share/lite-llm/lite-llm.db");
    assert!(!MemoryConfig::default().enabled);
    assert_eq!(default_context_size(), 8192);
    assert_eq!(default_top_k(), 40);
    assert_eq!(default_gpu_layers(), 99);
}

#[test]
fn listen_address_formats_port() {
    let s = ServerConfig { host: "0.0.0.0".to_string(), port: 0 };
    assert_eq!(s.listen_address(), "0.0.0.0:0");
    let s = ServerConfig { host: "::".to_string(), port: 65535 };
    assert_eq!(s.listen_address(), ":::65535");
}

// ── Registry ─────────────────────────────────────────────────────────────────

#[test]
fn registry_get_after_insert() {
    let mut r = ToolRegistry::new(vec![user_tool("a")]);
    r.insert(user_tool("b"));
    assert_eq!(r.get("b").unwrap().name, "b");
    assert_eq!(r.get("a").unwrap().name, "a");
    assert_eq!(r.get("get_datetime").unwrap().name, "get_datetime");
    assert!(r.get("c").is_none());
}

#[test]
fn registry_insert_replaces_same_name() {
    let mut r = ToolRegistry::new(vec![user_tool("a")]);
    let mut t = user_tool("a");
    t.description = "new".to_string();
    r.insert(t);
    assert_eq!(r.get("a").unwrap().description, "new");
    assert_eq!(names(&r.all()), strings(&["get_datetime", "a"]));
}

#[test]
fn registry_delete() {
    let mut r = ToolRegistry::new(vec![user_tool("a"), user_tool("b")]);
    assert!(r.delete("a", 1));
    assert!(r.get("a").is_none());
    assert!(r.get("b").is_some());
    assert!(!r.delete("zzz", 0));
}

#[test]
fn registry_by_names_and_all() {
    let r = ToolRegistry::new(vec![user_tool("a"), user_tool("b"), user_tool("c")]);
    assert_eq!(names(&r.all()), strings(&["get_datetime", "a", "b", "c"]));
    assert_eq!(names(&r.by_names(&strings(&["c", "a"]))), strings(&["a", "c"]));
    assert_eq!(
        names(&r.by_names(&strings(&["get_datetime", "b"]))),
        strings(&["get_datetime", "b"])
    );
    assert!(r.by_names(&strings(&["x"])).is_empty());
}

#[test]
fn registry_from_rows_skips_undecodable() {
    let handler = user_tool("x").handler;
    let rows = vec![
        ToolRow {
            name: "a".to_string(),
            description: "A".to_string(),
            parameters: r#"{"type":"object"}"#.to_string(),
            handler: Some(handler.clone()),
        },
        ToolRow {
            name: "b".to_string(),
            description: "B".to_string(),
            parameters: "{not json".to_string(),
            handler: Some(handler.clone()),
        },
        ToolRow {
            name: "c".to_string(),
            description: "C".to_string(),
            parameters: "{}".to_string(),
            handler: None,
        },
        ToolRow { name: "d".to_string(), description: "D".to_string(), parameters: "{}".to_string(), handler: Some(handler) },
    ];
    let r = ToolRegistry::from_rows(&rows);
    assert_eq!(names(&r.all()), strings(&["get_datetime", "a", "d"]));
    let a = r.get("a").unwrap();
    assert_eq!(a.description, "A");
    assert_eq!(a.parameters["type"], "object");
    assert!(a.enabled);
}

// ── Tool selection and chats ─────────────────────────────────────────────────

#[test]
fn chat_and_command_tool_selection() {
    let r = ToolRegistry::new(vec![user_tool("a"), user_tool("b")]);
    assert!(chat_tools(&r, &vec![]).is_empty());
    assert_eq!(names(&chat_tools(&r, &strings(&["b"]))), strings(&["b"]));
    assert_eq!(names(&command_tools(&r, &None, false)), strings(&["get_datetime", "a", "b"]));
    assert!(command_tools(&r, &Some(vec![]), false).is_empty());
    assert_eq!(names(&command_tools(&r, &Some(strings(&["a"])), false)), strings(&["a"]));
    // With memory on, the model may also remember facts.
    assert_eq!(
        names(&command_tools(&r, &None, true)),
        strings(&["get_datetime", "a", "b", "remember"])
    );
    assert!(command_tools(&r, &Some(vec![]), true).is_empty());
    assert_eq!(names(&command_tools(&r, &Some(strings(&["a"])), true)), strings(&["a"]));
    assert_eq!(
        names(&command_tools(&r, &Some(strings(&["remember", "b"])), true)),
        strings(&["b", "remember"])
    );
    assert_eq!(names(&command_tools(&r, &Some(strings(&["remember"])), false)), Vec::<String>::new());
}

#[test]
fn split_chat_requires_user_last() {
    let (history, text) =
        split_chat_messages(vec![msg("system", "s"), msg("user", "hi")]).ok().unwrap();
    assert_eq!(history.len(), 1);
    assert_eq!(history[0].role, "system");
    assert_eq!(text, "hi");
    let e = split_chat_messages(vec![msg("user", "hi"), msg("assistant", "yo")]).err().unwrap();
    assert_eq!(e, "Last message must be from user");
    assert_eq!(split_chat_messages(vec![]).err().unwrap(), "Last message must be from user");
}

#[test]
fn plan_chat_and_command() {
    let registry = ToolRegistry::new(vec![user_tool("a")]);
    let mut models: ModelManager<u32> = ModelManager::new();
    let req = ChatRequest {
        model: None,
        session_id: None,
        messages: vec![msg("user", "hi")],
        tools: vec![],
    };
    assert_eq!(plan_chat(&models, &registry, req).err().unwrap(), "No model loaded");
    models.load("m1".to_string(), 7);
    let req = ChatRequest {
        model: None,
        session_id: Some("s".to_string()),
        messages: vec![msg("user", "one"), msg("assistant", "two"), msg("user", "three")],
        tools: strings(&["a"]),
    };
    let (backend, tools, history, text) = plan_chat(&models, &registry, req).ok().unwrap();
    assert_eq!(*backend, 7);
    assert_eq!(names(&tools), strings(&["a"]));
    assert_eq!(history.len(), 2);
    assert_eq!(text, "three");
    let bad = ChatRequest {
        model: Some("m1".to_string()),
        session_id: None,
        messages: vec![msg("assistant", "x")],
        tools: vec![],
    };
    assert_eq!(plan_chat(&models, &registry, bad).err().unwrap(), "Last message must be from user");
    let missing = CommandRequest { model: Some("other".to_string()), text: "t".to_string(), tools: None };
    assert_eq!(plan_command(&models, &registry, missing, false).err().unwrap(), "No model loaded");
    let cmd = CommandRequest { model: None, text: "turn on".to_string(), tools: None };
    let (backend, tools, text, recall) = plan_command(&models, &registry, cmd, false).ok().unwrap();
    assert_eq!(recall, None);
    assert_eq!(*backend, 7);
    assert_eq!(names(&tools), strings(&["get_datetime", "a"]));
    assert_eq!(text, "turn on");
    let cmd = CommandRequest { model: None, text: "Turn off all the lights".to_string(), tools: None };
    let (_, tools, _, recall) = plan_command(&models, &registry, cmd, true).ok().unwrap();
    assert_eq!(names(&tools), strings(&["get_datetime", "a", "remember"]));
    assert_eq!(recall, Some("Turn OR off OR all OR the OR lights".to_string()));
    let cmd = CommandRequest { model: None, text: "on it".to_string(), tools: None };
    let (_, _, _, recall) = plan_command(&models, &registry, cmd, true).ok().unwrap();
    assert_eq!(recall, None);
}

// ── Replies ──────────────────────────────────────────────────────────────────

#[test]
fn delete_statuses() {
    assert_eq!(delete_tool_status(Ok(true)), STATUS_NO_CONTENT);
    assert_eq!(delete_tool_status(Ok(false)), STATUS_NOT_FOUND);
    assert_eq!(delete_tool_status(Err("db".to_string())), STATUS_INTERNAL_SERVER_ERROR);
    assert_eq!((STATUS_NO_CONTENT, STATUS_NOT_FOUND, STATUS_INTERNAL_SERVER_ERROR), (204, 404, 500));
}

#[test]
fn remember_replies() {
    let (status, m) = remember_reply(None).err().unwrap();
    assert_eq!((status, m.as_str()), (STATUS_SERVICE_UNAVAILABLE, "memory is disabled"));
    assert_eq!(status, 503);
    let (status, m) = remember_reply(Some(Err("disk full".to_string()))).err().unwrap();
    assert_eq!((status, m.as_str()), (500, "disk full"));
    assert_eq!(remember_reply(Some(Ok(InsertOutcome::Stored))).ok().unwrap().result, "stored");
    assert_eq!(
        remember_reply(Some(Ok(InsertOutcome::AlreadyKnown))).ok().unwrap().result,
        "already known"
    );
}

#[test]
fn memory_entries_keep_order() {
    let e = memory_entries(strings(&["b", "a"]));
    assert_eq!(e.len(), 2);
    assert_eq!(e[0].content, "b");
    assert_eq!(e[1].content, "a");
}

#[test]
fn model_listing_replies() {
    let mut models: ModelManager<u32> = ModelManager::new();
    let r = list_models_response(&models);
    assert!(r.loaded.is_empty());
    assert_eq!(r.active, None);
    models.load("a".to_string(), 1);
    models.load("b".to_string(), 2);
    let r = list_models_response(&models);
    assert_eq!(r.loaded, strings(&["a", "b"]));
    assert_eq!(r.active, Some("b".to_string()));
    let l = loaded_response("b".to_string());
    assert_eq!(l.model_handle, "b");
    assert_eq!(l.status, "loaded");
}

// ── Model manager ────────────────────────────────────────────────────────────

#[test]
fn model_manager_resolution() {
    let mut m: ModelManager<u32> = ModelManager::new();
    assert!(m.resolve(None).is_none());
    m.load("a".to_string(), 1);
    assert_eq!(m.resolve(None), Some(&1));
    m.load("b".to_string(), 2);
    assert_eq!(m.resolve(None), Some(&2));
    assert_eq!(m.resolve(Some("a")), Some(&1));
    assert_eq!(m.resolve(Some("c")), None);
    m.load("a".to_string(), 3);
    assert_eq!(m.resolve(None), Some(&3));
    assert_eq!(m.get("a"), Some(&3));
    assert_eq!(m.get("b"), Some(&2));
    assert_eq!(m.loaded_ids().len(), 2);
    assert_eq!(m.active_id(), Some("a".to_string()));
}

#[test]
fn model_paths_classified() {
    assert!(matches!(classify_model_path("/models/x.gguf"), ModelSource::Local));
    assert!(matches!(classify_model_path("./x.task"), ModelSource::Local));
    assert!(matches!(classify_model_path("~/x.task"), ModelSource::Local));
    assert!(matches!(classify_model_path("model.gguf"), ModelSource::Local));
    assert!(matches!(classify_model_path("owner/repo"), ModelSource::HubRepo));
    match classify_model_path("owner/repo/sub/file.gguf") {
        ModelSource::HubFile { repo_id, filename } => {
            assert_eq!(repo_id, "owner/repo");
            assert_eq!(filename, "sub/file.gguf");
        }
        _ => panic!("expected a repository file"),
    }
    assert!(is_gguf("a.gguf"));
    assert!(!is_gguf("a.task"));
}

fn ready(step: HubStep) -> String {
    match step {
        HubStep::Ready(p) => p,
        _ => panic!("expected a local path"),
    }
}

#[test]
fn local_model_paths_resolved() {
    assert_eq!(ready(resolve_path("/models/m.gguf", None)), "/models/m.gguf");
    assert_eq!(ready(resolve_path("m.task", None)), "m.task");
    let home = ready(resolve_path("~/models/m.task", None));
    assert!(!home.starts_with('~'));
    assert!(home.ends_with("/models/m.task"));
}

#[test]
fn hub_paths_resolved() {
    match resolve_path("org/repo/sub/f.gguf", Some("tok".to_string())) {
        HubStep::Download { repo_id, filename, token } => {
            assert_eq!(repo_id, "org/repo");
            assert_eq!(filename, "sub/f.gguf");
            assert_eq!(token, Some("tok".to_string()));
        }
        _ => panic!("expected a download"),
    }
    match resolve_path("org/repo", None) {
        HubStep::List { repo_id, token } => {
            assert_eq!(repo_id, "org/repo");
            assert_eq!(token, None);
        }
        _ => panic!("expected a listing"),
    }
}

#[test]
fn best_model_file_picked() {
    let files = strings(&["README.md", "m-Q8_0.gguf", "m-Q4_0.gguf", "m-Q4_K_M.gguf"]);
    assert_eq!(pick_model_file(&files), Some("m-Q4_K_M.gguf".to_string()));
    let files = strings(&["m-f16.gguf", "m-Q8_0.gguf"]);
    assert_eq!(pick_model_file(&files), Some("m-Q8_0.gguf".to_string()));
    let files = strings(&["a.gguf", "b.gguf"]);
    assert_eq!(pick_model_file(&files), Some("a.gguf".to_string()));
    let files = strings(&["x.txt", "m.task", "m.litertlm"]);
    assert_eq!(pick_model_file(&files), Some("m.task".to_string()));
    assert_eq!(pick_model_file(&strings(&["x.txt"])), None);
}

fn download_of(step: HubStep) -> (String, String) {
    match step {
        HubStep::Download { repo_id, filename, .. } => (repo_id, filename),
        _ => panic!("expected a download"),
    }
}

#[test]
fn auto_pick_downloads_best_file() {
    let files = strings(&["m-Q8_0.gguf", "m-Q4_K_S.gguf", "m-Q4_K_M.gguf", "m.task"]);
    assert_eq!(
        download_of(hf_auto_pick("o/r", None, HubOutcome::Done(files))),
        ("o/r".to_string(), "m-Q4_K_M.gguf".to_string())
    );
    let files = strings(&["a.litertlm", "b-Q8_0.gguf", "b-Q4_1.gguf"]);
    assert_eq!(download_of(hf_auto_pick("o/r", None, HubOutcome::Done(files))).1, "b-Q4_1.gguf");
    let files = strings(&["x.txt", "a.task"]);
    match hf_auto_pick("o/r", Some("t".to_string()), HubOutcome::Done(files)) {
        HubStep::Download { filename, token, .. } => {
            assert_eq!(filename, "a.task");
            assert_eq!(token, Some("t".to_string()));
        }
        _ => panic!("expected a download"),
    }
}

#[test]
fn auto_pick_errors() {
    let e = match hf_auto_pick("o/r", None, HubOutcome::Done(strings(&["x.txt"]))) {
        HubStep::Failed(e) => e,
        _ => panic!("expected a failure"),
    };
    assert!(matches!(e, ModelError::NoModelFile { ref repo_id } if repo_id == "o/r"));
    assert_eq!(e.message(), "No recognised model file (.gguf, .litertlm, .task) found in o/r");
    match hf_auto_pick("o/r", None, HubOutcome::Failed("offline".to_string())) {
        HubStep::Failed(e) => assert_eq!(e.message(), "Failed to list o/r: offline"),
        _ => panic!("expected a failure"),
    }
    match hf_auto_pick("o/r", None, HubOutcome::Setup("no home".to_string())) {
        HubStep::Failed(e) => assert_eq!(e.message(), "no home"),
        _ => panic!("expected a failure"),
    }
}

#[test]
fn hub_download_outcomes() {
    assert_eq!(hf_get("o/r", "f", HubOutcome::Done("/cache/f".to_string())).ok().unwrap(), "/cache/f");
    let d = hf_get("o/r", "f", HubOutcome::Failed("404".to_string())).err().unwrap();
    assert_eq!(d.message(), "HuggingFace download failed (o/r/f): 404");
    let s = hf_get("o/r", "f", HubOutcome::Setup("no home".to_string())).err().unwrap();
    assert!(matches!(s, ModelError::HubSetup(ref m) if m == "no home"));
}

// ── Downloads ────────────────────────────────────────────────────────────────

fn messages(events: &[DownloadEvent]) -> Vec<String> {
    events
        .iter()
        .map(|e| match e {
            DownloadEvent::Resolving { message } => format!("resolving: {message}"),
            DownloadEvent::Downloading { filename, downloaded, total } => {
                format!("downloading: {filename} {downloaded} {total:?}")
            }
            DownloadEvent::Loading { message } => format!("loading: {message}"),
            DownloadEvent::Complete { model_id, path } => format!("complete: {model_id} {path}"),
            DownloadEvent::Error { message } => format!("error: {message}"),
        })
        .collect()
}

#[test]
fn download_defaults() {
    assert_eq!(DEFAULT_REPO_ID, "litert-community/gemma-4-E2B-it-litert-lm");
    assert_eq!(DEFAULT_MODELS_DIR, "~/.local/share/lite-llm/models");
    assert_eq!(PROGRESS_INTERVAL, 5 * 1024 * 1024);
    let req = DownloadRequest::default();
    assert!(req.repo_id.is_none() && req.filename.is_none() && req.model_id.is_none());
}

#[test]
fn download_lists_repo_when_no_file_named() {
    let (mut d, t) = Download::start(DownloadRequest::default(), None);
    assert_eq!(d.repo_id, DEFAULT_REPO_ID);
    assert_eq!(
        messages(&t.events),
        vec![format!("resolving: Listing files in {DEFAULT_REPO_ID}...")]
    );
    assert!(matches!(t.next, DownloadStep::ListFiles { ref repo_id } if repo_id == DEFAULT_REPO_ID));
    let t = d.on_listing(Ok(strings(&["README.md", "gemma.task", "gemma-4.litertlm", "b.litertlm"])));
    assert_eq!(d.filename, "gemma-4.litertlm");
    assert!(t.events.is_empty());
    match t.next {
        DownloadStep::CheckDestination { models_dir, filename } => {
            assert_eq!(filename, "gemma-4.litertlm");
            assert!(models_dir.ends_with(".local/share/lite-llm/models"));
        }
        _ => panic!("expected the destination check"),
    }
}

#[test]
fn download_listing_failures() {
    let (mut d, _) = Download::start(DownloadRequest::default(), None);
    let t = d.on_listing(Ok(strings(&["x.task"])));
    assert_eq!(
        messages(&t.events),
        vec![format!("error: No .litertlm file found in {DEFAULT_REPO_ID}")]
    );
    assert!(matches!(t.next, DownloadStep::Finish));
    let t = d.on_listing(Err(ListingError::Request("timeout".to_string())));
    assert_eq!(messages(&t.events), vec!["error: Failed to list repo files: timeout"]);
    let t = d.on_listing(Err(ListingError::Setup("no home".to_string())));
    assert_eq!(messages(&t.events), vec!["error: no home"]);
}

#[test]
fn download_cached_file_is_loaded() {
    let req = DownloadRequest {
        repo_id: Some("o/r".to_string()),
        filename: Some("model.v2.litertlm".to_string()),
        model_id: None,
    };
    let (mut d, t) = Download::start(req, None);
    assert!(t.events.is_empty());
    assert!(matches!(t.next, DownloadStep::CheckDestination { .. }));
    let t = d.on_destination("/m/model.v2.litertlm".to_string(), true);
    assert_eq!(
        messages(&t.events),
        vec!["resolving: model.v2.litertlm already downloaded, loading...", "loading: Loading model.v2..."]
    );
    match t.next {
        DownloadStep::Load { model_id, path } => {
            assert_eq!(model_id, "model.v2");
            assert_eq!(path, "/m/model.v2.litertlm");
            let t = d.on_loaded(&model_id, &path, Ok(()));
            assert_eq!(messages(&t.events), vec!["complete: model.v2 /m/model.v2.litertlm"]);
            assert!(matches!(t.next, DownloadStep::Finish));
            let t = d.on_loaded(&model_id, &path, Err("bad file".to_string()));
            assert_eq!(messages(&t.events), vec!["error: bad file"]);
        }
        _ => panic!("expected a load"),
    }
}

#[test]
fn download_streams_with_progress() {
    let req = DownloadRequest {
        repo_id: Some("o/r".to_string()),
        filename: Some("m.litertlm".to_string()),
        model_id: Some("mine".to_string()),
    };
    let (mut d, _) = Download::start(req, Some("tok".to_string()));
    let t = d.on_destination("/m/m.litertlm".to_string(), false);
    assert_eq!(messages(&t.events), vec!["resolving: Downloading m.litertlm from o/r..."]);
    match t.next {
        DownloadStep::Fetch { url, authorization } => {
            assert_eq!(url, "https://huggingface.co/o/r/resolve/main/m.litertlm");
            assert_eq!(authorization, Some("Bearer tok".to_string()));
        }
        _ => panic!("expected a fetch"),
    }
    let t = d.on_response(200, "200 OK".to_string(), Some(12 * 1024 * 1024));
    assert!(t.events.is_empty());
    assert!(matches!(t.next, DownloadStep::Stream));
    let mib = 1024 * 1024;
    assert!(d.on_chunk(3 * mib).is_empty());
    let e = d.on_chunk(3 * mib);
    assert_eq!(messages(&e), vec![format!("downloading: m.litertlm {} Some({})", 6 * mib, 12 * mib)]);
    assert!(d.on_chunk(3 * mib).is_empty());
    assert_eq!(d.on_chunk(3 * mib).len(), 1);
    let t = d.on_finished();
    assert_eq!(
        messages(&t.events),
        vec![
            format!("downloading: m.litertlm {} Some({})", 12 * mib, 12 * mib),
            "loading: Loading mine...".to_string()
        ]
    );
    assert!(matches!(t.next, DownloadStep::Load { ref model_id, .. } if model_id == "mine"));
}

#[test]
fn download_http_error() {
    let req = DownloadRequest {
        repo_id: Some("o/r".to_string()),
        filename: Some("m.litertlm".to_string()),
        model_id: None,
    };
    let (mut d, _) = Download::start(req, None);
    let t = d.on_destination("/m/m.litertlm".to_string(), false);
    assert!(matches!(t.next, DownloadStep::Fetch { authorization: None, .. }));
    let t = d.on_response(404, "404 Not Found".to_string(), None);
    assert_eq!(
        messages(&t.events),
        vec!["error: HTTP 404 Not Found: https://huggingface.co/o/r/resolve/main/m.litertlm"]
    );
    assert_eq!(messages(&d.on_failure("disk full".to_string()).events), vec!["error: disk full"]);
}

#[test]
fn first_litertlm_only() {
    assert_eq!(first_litertlm_exec(&strings(&["a.task", "b.litertlm"])), Some("b.litertlm".to_string()));
    assert_eq!(first_litertlm_exec(&strings(&["a.task"])), None);
}
