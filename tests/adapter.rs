use snapjournal_ai::service::{ChatPlan, EmbeddingPlan, ModelListing};
use snapjournal_ai::{
    analysis_from_chat, analysis_from_reply, embedding_from_run, http_chat_response,
    models_from_discovery, process_chat_response, stand_in_vector, system_prompt, AIModel,
    AIService, AdapterError, AnalysisStep, ChatRequest, ChatResponse, EchoAnalysis,
    EmbeddingRequest, APP_NAME,
};

const SYSTEM_NO_CONTEXT: &str = "You are a helpful AI introspection companion for MyFace SnapJournal. You help users reflect on their journal entries and social media posts. Be empathetic, insightful, and encouraging. Help them discover patterns and insights in their writing.";

fn http_service() -> AIService {
    AIService::new("http-runner", "http://localhost:11434", None).unwrap()
}

fn process_service() -> AIService {
    AIService::new("process-binary", "/usr/local/bin/runner", None).unwrap()
}

fn chat(message: &str, context: Option<&str>) -> ChatRequest {
    ChatRequest {
        message: message.to_string(),
        context: context.map(|c| c.to_string()),
        model: None,
    }
}

fn component(code: u64) -> f32 {
    (code as f32 / u64::MAX as f32) * 2.0 - 1.0
}

fn moods(a: &EchoAnalysis) -> Vec<(String, u32)> {
    a.mood_trends.iter().map(|m| (m.mood.clone(), m.share)).collect()
}

#[test]
fn http_chat_happy_path() {
    let service = http_service();
    let (url, body) = match service.chat_plan(&chat("Hello", None)) {
        ChatPlan::Http { url, body } => (url, body),
        other => panic!("expected an HTTP plan, got {:?}", other),
    };
    assert_eq!(url, "http://localhost:11434/api/chat");
    assert_eq!(body.model, "llama3.2");
    assert_eq!(body.messages.len(), 2);
    assert_eq!(body.messages[0].role, "system");
    assert_eq!(body.messages[0].content, SYSTEM_NO_CONTEXT);
    assert_eq!(body.messages[1].role, "user");
    assert_eq!(body.messages[1].content, "Hello");
    assert!(!body.stream);

    let reply: serde_json::Value = serde_json::from_str(
        r#"{"message":{"role":"assistant","content":"Hi there"},"done":true}"#,
    )
    .unwrap();
    let content = reply["message"]["content"].as_str().map(|s| s.to_string());
    let response = http_chat_response(body.model.clone(), 200, content).unwrap();
    assert_eq!(
        response,
        ChatResponse { response: "Hi there".to_string(), model: "llama3.2".to_string(), tokens_used: None }
    );
}

#[test]
fn process_chat_with_context() {
    let service = process_service();
    let (program, args) = match service.chat_plan(&chat("Why?", Some("I was late today"))) {
        ChatPlan::Process { program, args } => (program, args),
        other => panic!("expected a process plan, got {:?}", other),
    };
    let prompt = "Context: I was late today\n\nUser: Why?\n\nAssistant:";
    assert_eq!(program, "/usr/local/bin/runner");
    assert_eq!(args, vec!["-p", prompt, "-n", "256"]);
    // The stub binary echoes its -p argument.
    let stdout = format!("{}\n", args[1]);
    assert!(stdout.starts_with(prompt));
    let response = process_chat_response(true, &stdout, "").unwrap();
    assert_eq!(response.response, stdout.trim());
    assert_eq!(response.model, "llama.cpp");
    assert_eq!(response.tokens_used, None);
}

#[test]
fn process_chat_without_context() {
    let service = process_service();
    match service.chat_plan(&chat("Hi", None)) {
        ChatPlan::Process { args, .. } => assert_eq!(args[1], "User: Hi\n\nAssistant:"),
        other => panic!("expected a process plan, got {:?}", other),
    }
}

#[test]
fn process_chat_failure_carries_stderr() {
    match process_chat_response(false, "partial", "model file not found") {
        Err(AdapterError::Backend(m)) => assert!(m.contains("model file not found")),
        other => panic!("expected a backend error, got {:?}", other),
    }
}

#[test]
fn process_chat_trims_unicode_whitespace() {
    let response = process_chat_response(true, "\u{3000}\t answer \u{a0}\r\n", "").unwrap();
    assert_eq!(response.response, "answer");
}

#[test]
fn embed_via_process_backend() {
    let service = process_service();
    let request = EmbeddingRequest { text: "hello".to_string(), model: None };
    match service.embedding_plan(&request) {
        EmbeddingPlan::StandIn(e) => {
            assert_eq!(e.embedding.len(), 384);
            assert!(e.embedding.iter().all(|c| (-1.0..=1.0).contains(&component(*c))));
            assert_eq!(e.model, "mock-embedding");
            assert_eq!(e.embedding, stand_in_vector("hello"));
        }
        other => panic!("expected a stand-in, got {:?}", other),
    }
}

#[test]
fn embed_via_http_backend_runs_the_model() {
    let service = http_service();
    let request = EmbeddingRequest { text: "hello".to_string(), model: None };
    match service.embedding_plan(&request) {
        EmbeddingPlan::Run { program, args, model } => {
            assert_eq!(program, "ollama");
            assert_eq!(args, vec!["run", "nomic-embed-text", "Generate embedding for: hello"]);
            assert_eq!(model, "nomic-embed-text");
            let e = embedding_from_run("hello", model, true, "").unwrap();
            assert_eq!(e.embedding, stand_in_vector("hello"));
            assert_eq!(e.model, "nomic-embed-text");
        }
        other => panic!("expected a run, got {:?}", other),
    }
    match embedding_from_run("hello", "m".to_string(), false, "no such model") {
        Err(AdapterError::Backend(m)) => assert!(m.contains("no such model")),
        other => panic!("expected a backend error, got {:?}", other),
    }
}

#[test]
fn stand_in_vector_is_deterministic() {
    let a = stand_in_vector("same text");
    let b = stand_in_vector("same text");
    assert_eq!(a, b);
    assert_eq!(a.len(), 384);
    for (i, c) in a.iter().enumerate() {
        assert_eq!(*c, a[0].wrapping_add(i as u64));
        assert!((-1.0..=1.0).contains(&component(*c)));
    }
    assert_eq!(stand_in_vector("").len(), 384);
}

const THEME_REPLY: &str = "PATTERNS:\n- Gratitude: you thank people often\n- Sleep: you mention tiredness\nINSIGHTS:\n- You write more in the morning\nMOODS:\n- positive: 70\n- neutral: 20\n- negative: 10\n";

fn five_entries() -> Vec<String> {
    (1..=5).map(|i| format!("entry {}", i)).collect()
}

#[test]
fn theme_analysis_parse() {
    let a = analysis_from_reply(THEME_REPLY, five_entries().len());
    assert_eq!(a.patterns.len(), 2);
    assert_eq!(a.patterns[0].title, "Gratitude");
    assert_eq!(a.patterns[0].description, "you thank people often");
    assert_eq!(a.patterns[1].title, "Sleep");
    assert_eq!(a.patterns[1].description, "you mention tiredness");
    for p in &a.patterns {
        assert_eq!(p.strength, 80);
        assert_eq!(p.pattern_type, "custom");
        assert!(p.entry_ids.is_empty());
        assert!(p.tags.is_empty());
        assert_eq!(p.id.len(), 36);
    }
    assert_ne!(a.patterns[0].id, a.patterns[1].id);
    assert_eq!(a.insights, vec!["You write more in the morning"]);
    assert_eq!(
        moods(&a),
        vec![
            ("positive".to_string(), 700_000),
            ("neutral".to_string(), 200_000),
            ("negative".to_string(), 100_000)
        ]
    );
}

#[test]
fn theme_analysis_through_the_service() {
    let service = http_service();
    let entries = five_entries();
    let request = match service.begin_analysis(&entries) {
        AnalysisStep::Ask(q) => q,
        other => panic!("expected a question, got {:?}", other),
    };
    assert!(request.message.contains("entry 1\n\n---\n\nentry 2"));
    assert!(request.message.starts_with("Analyze the following journal entries"));
    assert!(request.message.ends_with("MOODS:\n- [mood]: [percentage]"));
    assert_eq!(request.context, None);
    assert_eq!(request.model.as_deref(), Some("llama3.2"));
    let reply = ChatResponse { response: THEME_REPLY.to_string(), model: "llama3.2".to_string(), tokens_used: None };
    let a = analysis_from_chat(entries.len(), Ok(reply)).unwrap();
    assert_eq!(a.patterns.len(), 2);
    assert_eq!(a.insights.len(), 1);
}

#[test]
fn theme_analysis_chat_failure_fallback() {
    let a = analysis_from_chat(2, Err(AdapterError::Backend("connection refused".to_string()))).unwrap();
    assert!(a.patterns.is_empty());
    assert!(a.insights.is_empty());
    assert_eq!(
        moods(&a),
        vec![
            ("neutral".to_string(), 500_000),
            ("positive".to_string(), 300_000),
            ("negative".to_string(), 200_000)
        ]
    );
}

#[test]
fn theme_analysis_cancellation_passes_through() {
    assert_eq!(analysis_from_chat(2, Err(AdapterError::Cancelled)), Err(AdapterError::Cancelled));
}

#[test]
fn theme_analysis_of_nothing_asks_nothing() {
    match http_service().begin_analysis(&Vec::new()) {
        AnalysisStep::Done(a) => {
            assert!(a.patterns.is_empty());
            assert!(a.insights.is_empty());
            assert!(a.mood_trends.is_empty());
        }
        other => panic!("expected an empty report, got {:?}", other),
    }
}

#[test]
fn three_entries_without_patterns_get_no_habit() {
    let a = analysis_from_reply("INSIGHTS:\n- steady\n", 3);
    assert!(a.patterns.is_empty());
    assert_eq!(a.insights, vec!["steady"]);
}

#[test]
fn four_entries_without_patterns_get_the_habit() {
    let a = analysis_from_reply("nothing structured here", 4);
    assert_eq!(a.patterns.len(), 1);
    let p = &a.patterns[0];
    assert_eq!(p.title, "Regular Journaling");
    assert_eq!(p.description, "You maintain a consistent journaling habit");
    assert_eq!(p.strength, 70);
    assert_eq!(p.tags, vec!["consistency"]);
    assert_eq!(p.pattern_type, "habit");
    assert_eq!(p.id.len(), 36);
}

#[test]
fn percentages_above_the_whole_are_clamped() {
    let a = analysis_from_reply("MOODS:\n- joy: 120%\n- calm: 12.5%\n- tired: .5\n- odd: 1e2\n- sad: -5\n- bored: 7.%\n", 1);
    assert_eq!(
        moods(&a),
        vec![
            ("joy".to_string(), 1_000_000),
            ("calm".to_string(), 125_000),
            ("tired".to_string(), 5_000),
            ("bored".to_string(), 70_000)
        ]
    );
}

#[test]
fn report_values_stay_in_range() {
    let a = analysis_from_reply("PATTERNS:\n- A: b\nMOODS:\n- x: 99999999999999999999\n- y: 0\n- z: 100.00001\n", 9);
    assert!(a.patterns.iter().all(|p| p.strength <= 100));
    assert!(a.mood_trends.iter().all(|m| m.share <= 1_000_000));
    assert_eq!(moods(&a)[0].1, 1_000_000);
    assert_eq!(moods(&a)[1].1, 0);
    assert_eq!(moods(&a)[2].1, 1_000_000);
}

#[test]
fn repeated_mood_keeps_first_place_and_last_value() {
    let a = analysis_from_reply("MOODS:\n- calm: 10\n- joy: 5\n- calm: 30\n", 1);
    assert_eq!(moods(&a), vec![("calm".to_string(), 300_000), ("joy".to_string(), 50_000)]);
}

#[test]
fn sections_end_at_the_next_label() {
    let reply = "PATTERNS:\n- A: first\nMOODS:\n- calm: 50\nPATTERNS:\n- B: second\nINSIGHTS:\n- seen\n";
    let a = analysis_from_reply(reply, 1);
    let titles: Vec<&str> = a.patterns.iter().map(|p| p.title.as_str()).collect();
    assert_eq!(titles, vec!["A"]);
    assert_eq!(moods(&a), vec![("calm".to_string(), 500_000)]);
    assert_eq!(a.insights, vec!["seen"]);
}

#[test]
fn malformed_lines_are_skipped() {
    let reply = "PATTERNS:\r\n- Work: long days\r\n-NoSpace: x\r\n- no colon here\r\n- : untitled\r\n  - Indented: y\r\n- Time: a: b\r\nINSIGHTS:\r\nplain line\r\n-   padded   \r\n";
    let a = analysis_from_reply(reply, 1);
    let pairs: Vec<(&str, &str)> =
        a.patterns.iter().map(|p| (p.title.as_str(), p.description.as_str())).collect();
    assert_eq!(pairs, vec![("Work", "long days"), ("Time", "a: b")]);
    assert_eq!(a.insights, vec!["padded"]);
}

#[test]
fn analysis_is_repeatable_apart_from_ids() {
    let a = analysis_from_reply(THEME_REPLY, 5);
    let b = analysis_from_reply(THEME_REPLY, 5);
    let strip = |x: &EchoAnalysis| {
        let mut y = x.clone();
        for p in y.patterns.iter_mut() {
            p.id.clear();
        }
        y
    };
    assert_eq!(strip(&a), strip(&b));
}

#[test]
fn list_models_from_discovery() {
    let names = models_from_discovery(true, "NAME ID SIZE\nllama3.2 abc 4GB\nnomic-embed-text def 300MB\n");
    assert_eq!(names, vec!["llama3.2", "nomic-embed-text"]);
    assert!(models_from_discovery(false, "NAME\nx\n").is_empty());
    assert_eq!(models_from_discovery(true, "HEADER\n\n   \n  spaced  out\n"), vec!["spaced"]);
    assert!(models_from_discovery(true, "").is_empty());
}

#[test]
fn list_models_plans() {
    match process_service().model_listing() {
        ModelListing::Fixed(v) => assert_eq!(v, vec!["llama2:7b", "codellama:7b"]),
        other => panic!("expected a fixed list, got {:?}", other),
    }
    match http_service().model_listing() {
        ModelListing::Discover { program, args } => {
            assert_eq!(program, "ollama");
            assert_eq!(args, vec!["list"]);
        }
        other => panic!("expected discovery, got {:?}", other),
    }
}

#[test]
fn probe_commands() {
    assert_eq!(http_service().probe_command(), ("ollama".to_string(), vec!["list".to_string()]));
    assert_eq!(
        process_service().probe_command(),
        ("/usr/local/bin/runner".to_string(), vec!["--help".to_string()])
    );
}

#[test]
fn construction_errors() {
    assert!(matches!(AIService::new("gpt", "", None), Err(AdapterError::Config(_))));
    assert!(matches!(
        AIService::new("http-runner", "", Some("not a url".to_string())),
        Err(AdapterError::Config(_))
    ));
    assert!(AIService::new("http-runner", "", None).is_ok());
    assert!(AIService::new("process-binary", "runner", Some("not a url".to_string())).is_ok());
}

#[test]
fn url_override_wins() {
    let service = AIService::new("http-runner", "http://ignored:1", Some("http://example.test:8080".to_string())).unwrap();
    match service.chat_plan(&chat("x", None)) {
        ChatPlan::Http { url, .. } => assert_eq!(url, "http://example.test:8080/api/chat"),
        other => panic!("expected an HTTP plan, got {:?}", other),
    }
    let service = AIService::new("process-binary", "/bin/runner", None).unwrap();
    match service.chat_plan(&chat("x", None)) {
        ChatPlan::Process { program, .. } => assert_eq!(program, "/bin/runner"),
        other => panic!("expected a process plan, got {:?}", other),
    }
}

#[test]
fn http_chat_errors() {
    assert_eq!(http_chat_response("m".to_string(), 500, Some("x".to_string())), Err(AdapterError::Status(500)));
    assert_eq!(http_chat_response("m".to_string(), 404, None), Err(AdapterError::Status(404)));
    assert!(matches!(http_chat_response("m".to_string(), 200, None), Err(AdapterError::Backend(_))));
}

#[test]
fn system_prompt_names_the_application() {
    let plain = system_prompt(&None);
    assert_eq!(plain, SYSTEM_NO_CONTEXT);
    assert!(plain.contains(APP_NAME));
    let with = system_prompt(&Some("slept badly".to_string()));
    assert!(with.contains(APP_NAME));
    assert!(with.contains("Use the following context about the user's entries:\n\nslept badly\n\n Be empathetic"));
}

#[test]
fn requested_model_overrides_default() {
    let mut request = chat("Hello", Some("ctx"));
    request.model = Some("mistral".to_string());
    match http_service().chat_plan(&request) {
        ChatPlan::Http { body, .. } => {
            assert_eq!(body.model, "mistral");
            assert!(body.messages[0].content.contains("ctx"));
        }
        other => panic!("expected an HTTP plan, got {:?}", other),
    }
}

#[test]
fn chat_body_round_trips_through_json() {
    let body = match http_service().chat_plan(&chat("Hello \"quoted\"\n", Some("tab\there"))) {
        ChatPlan::Http { body, .. } => body,
        other => panic!("expected an HTTP plan, got {:?}", other),
    };
    let mut messages = Vec::new();
    for m in &body.messages {
        let mut o = serde_json::Map::new();
        o.insert("role".to_string(), serde_json::Value::String(m.role.clone()));
        o.insert("content".to_string(), serde_json::Value::String(m.content.clone()));
        messages.push(serde_json::Value::Object(o));
    }
    let mut o = serde_json::Map::new();
    o.insert("model".to_string(), serde_json::Value::String(body.model.clone()));
    o.insert("messages".to_string(), serde_json::Value::Array(messages));
    o.insert("stream".to_string(), serde_json::Value::Bool(body.stream));
    let wire = serde_json::Value::Object(o);
    let text = serde_json::to_string(&wire).unwrap();
    let back: serde_json::Value = serde_json::from_str(&text).unwrap();
    assert_eq!(back, wire);
    assert_eq!(back["messages"][1]["content"].as_str(), Some(body.messages[1].content.as_str()));
    assert_eq!(back["stream"].as_bool(), Some(false));
}

#[test]
fn backend_variants() {
    assert!(matches!(process_service().chat_plan(&chat("a", None)), ChatPlan::Process { .. }));
    let m = AIModel::LlamaCpp("x".to_string());
    assert_ne!(m, AIModel::Ollama);
}

#[test]
fn builders_replace_defaults() {
    let service = http_service()
        .with_chat_model("mistral".to_string())
        .with_embedding_model("mxbai".to_string());
    match service.chat_plan(&chat("x", None)) {
        ChatPlan::Http { body, .. } => assert_eq!(body.model, "mistral"),
        other => panic!("expected an HTTP plan, got {:?}", other),
    }
    match service.embedding_plan(&EmbeddingRequest { text: "t".to_string(), model: None }) {
        EmbeddingPlan::Run { model, .. } => assert_eq!(model, "mxbai"),
        other => panic!("expected a run, got {:?}", other),
    }
    let listed = process_service().with_advertised_models(vec!["tiny".to_string()]);
    match listed.model_listing() {
        ModelListing::Fixed(v) => assert_eq!(v, vec!["tiny"]),
        other => panic!("expected a fixed list, got {:?}", other),
    }
    match service.begin_analysis(&vec!["a".to_string()]) {
        AnalysisStep::Ask(q) => assert_eq!(q.model.as_deref(), Some("mistral")),
        other => panic!("expected a question, got {:?}", other),
    }
}
