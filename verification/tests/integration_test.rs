use std::io::Write;
use std::time::{SystemTime, UNIX_EPOCH};

use base64::engine::general_purpose::URL_SAFE_NO_PAD;
use base64::Engine;
use m365_copilot_proxy::browser_install::{archive_entries, extract_chromium_zip, ExtractAction};
use m365_copilot_proxy::cdp::{
    browser_available, browser_executable, discover_chromium_browser_if_present, find_m365_page,
    needs_substrate_token, playwright_chromium_binary_in_dir, playwright_chromium_layout, Machine,
};
use m365_copilot_proxy::config::{apply_env_overrides, AppConfig, Settings};
use m365_copilot_proxy::copilot::FakeCopilotClient;
use m365_copilot_proxy::json::Json;
use m365_copilot_proxy::models::{
    MessageContent, OpenAIChatRequest, OpenAIMessage, OpenAIResponsesRequest, ResponsesInput,
};
use m365_copilot_proxy::platform::{Arch, Os, Platform};
use m365_copilot_proxy::routes::{
    chat_completion_json, chat_completions, completion_id, healthz_json, list_models_json,
    openai_responses, CompletionStream, Upstream,
};
use m365_copilot_proxy::session_store::PersistentSessionStore;
use m365_copilot_proxy::substrate_client::SubstrateCopilotClient;
use m365_copilot_proxy::token_store::{
    decode_jwt_payload, is_substrate_token, read_env_token, seconds_remaining, write_token,
    AccessTokenStore,
};
use m365_copilot_proxy::translator::translate_openai_request;
use serde_json::Value;

fn now() -> i64 {
    SystemTime::now()
        .duration_since(UNIX_EPOCH)
        .unwrap()
        .as_secs() as i64
}

fn make_jwt(exp: i64, aud: &str) -> String {
    let mut header = serde_json::Map::new();
    header.insert("alg".to_string(), Value::from("none"));
    let mut payload = serde_json::Map::new();
    payload.insert("aud".to_string(), Value::from(aud));
    payload.insert("exp".to_string(), Value::from(exp));
    payload.insert("oid".to_string(), Value::from("oid"));
    payload.insert("tid".to_string(), Value::from("tid"));
    let head = URL_SAFE_NO_PAD.encode(serde_json::to_vec(&Value::Object(header)).unwrap());
    let body = URL_SAFE_NO_PAD.encode(serde_json::to_vec(&Value::Object(payload)).unwrap());
    format!("{head}.{body}.sig")
}

fn platforms() -> Vec<Platform> {
    vec![
        Platform { os: Os::Macos, arch: Arch::Aarch64 },
        Platform { os: Os::Macos, arch: Arch::X86_64 },
        Platform { os: Os::Linux, arch: Arch::X86_64 },
        Platform { os: Os::Windows, arch: Arch::X86_64 },
    ]
}

fn machine(platform: Platform) -> Machine {
    Machine {
        platform,
        home: None,
        existing: Vec::new(),
        commands: Vec::new(),
        playwright_cache: None,
        playwright_entries: Vec::new(),
        apps: Vec::new(),
    }
}

fn linux() -> Machine {
    machine(Platform { os: Os::Linux, arch: Arch::X86_64 })
}

fn user_message(text: &str) -> OpenAIMessage {
    OpenAIMessage {
        role: "user".to_string(),
        content: MessageContent::Text(text.to_string()),
    }
}

fn chat_request(messages: Vec<OpenAIMessage>, stream: bool) -> OpenAIChatRequest {
    OpenAIChatRequest {
        model: "m365-copilot".to_string(),
        messages,
        stream,
        temperature: None,
        user: None,
    }
}

#[test]
fn playwright_layout_maps_archive_to_extracted_paths() {
    for platform in platforms() {
        let layout = playwright_chromium_layout(platform).expect("platform layout");
        assert!(
            layout.download_archive.starts_with("chromium-"),
            "CDN zip uses chromium-* prefix: {}",
            layout.download_archive
        );
        assert!(
            !layout.binary_relative_paths.is_empty(),
            "expected at least one binary path"
        );
        for path in layout.binary_relative_paths {
            assert!(
                path.starts_with("chrome-"),
                "extracted folder uses chrome-* prefix, not {path}"
            );
        }
    }
}

#[test]
fn extract_zip_matches_playwright_layout() {
    for platform in platforms() {
        let install_dir = "/tmp/cache/chromium-9999";
        let relative = playwright_chromium_layout(platform)
            .expect("platform layout")
            .binary_relative_paths[0]
            .clone();

        let mut zip_data = Vec::new();
        {
            let cursor = std::io::Cursor::new(&mut zip_data);
            let mut zip = zip::write::ZipWriter::new(cursor);
            let options = zip::write::SimpleFileOptions::default()
                .compression_method(zip::CompressionMethod::Stored);
            let at = relative.rfind('/').unwrap();
            zip.add_directory(relative[..at + 1].to_string(), options).unwrap();
            zip.start_file(relative.clone(), options).unwrap();
            zip.write_all(b"fake").unwrap();
            let _ = zip.finish();
        }

        let mut m = machine(platform);
        let mut directories = 0;
        for i in 0..archive_entries(&zip_data).unwrap() {
            match extract_chromium_zip(platform.os, install_dir, &zip_data, i).unwrap() {
                ExtractAction::WriteFile { path, contents, .. } => {
                    assert_eq!(contents, b"fake".to_vec());
                    m.existing.push(path);
                }
                ExtractAction::MakeDir(_) => directories += 1,
                ExtractAction::Skip => panic!("every entry stays below"),
            }
        }
        assert_eq!(directories, 1);
        assert_eq!(m.existing.len(), 1);
        let found = playwright_chromium_binary_in_dir(&m, install_dir);
        assert_eq!(found, Some(m.existing[0].clone()));
        assert!(m.existing[0].ends_with(relative.as_str()));
    }
}

#[test]
fn browser_executable_uses_valid_config_override() {
    let fake_browser = "/tmp/browsers/chrome".to_string();
    let mut m = linux();
    m.existing.push(fake_browser.clone());
    m.existing.push("/usr/bin/chromium".to_string());
    let mut config = AppConfig::default();
    config.edge.executable = Some(fake_browser.clone());
    assert_eq!(browser_executable(&m, &config), fake_browser);
}

#[test]
fn browser_executable_falls_back_when_configured_path_missing() {
    let mut config = AppConfig::default();
    config.edge.executable = Some("/definitely/missing-browser-xyz".to_string());

    let mut m = linux();
    m.existing.push("/usr/bin/google-chrome".to_string());
    for m in [m, linux()] {
        let resolved = browser_executable(&m, &config);
        if let Some(found) = discover_chromium_browser_if_present(&m) {
            assert_eq!(resolved, found);
            assert!(m.browser_path_usable(&resolved));
        } else {
            assert_eq!(resolved, "/definitely/missing-browser-xyz");
        }
    }
}

#[test]
fn discovers_playwright_chromium_layout() {
    for platform in platforms() {
        let layout = playwright_chromium_layout(platform).expect("platform layout");
        let relative = layout.binary_relative_paths[0].clone();
        let chromium_dir = "/tmp/cache/chromium-9999/".to_string();
        let binary = format!("{chromium_dir}{relative}");
        let mut m = machine(platform);
        m.existing.push(binary.clone());
        assert_eq!(
            playwright_chromium_binary_in_dir(&m, &chromium_dir).as_deref(),
            Some(binary.as_str())
        );
    }
}

#[test]
fn browser_available_checks_config_path() {
    let mut config = AppConfig::default();
    config.edge.executable = Some("/definitely/missing-browser-xyz".to_string());
    let mut m = linux();
    m.commands.push("chromium".to_string());
    for m in [m, linux()] {
        assert_eq!(
            browser_available(&m, &config),
            discover_chromium_browser_if_present(&m).is_some()
        );
    }
}

#[test]
fn env_overrides_host_and_port() {
    let env = vec![
        ("M365_HOST".to_string(), "0.0.0.0".to_string()),
        ("M365_PORT".to_string(), "9000".to_string()),
    ];
    let mut config = AppConfig::default();
    apply_env_overrides(&mut config, &env);
    assert_eq!(config.server.host, "0.0.0.0");
    assert_eq!(config.server.port, 9000);
}

#[test]
fn default_config_matches_upstream() {
    let config = AppConfig::default();
    assert_eq!(config.server.port, 8000);
    assert_eq!(config.token.model_alias, "m365-copilot");
    assert_eq!(config.token.time_zone, "Asia/Tokyo");
}

#[test]
fn translates_openai_history() {
    let request = OpenAIChatRequest {
        model: "ignored".into(),
        messages: vec![
            OpenAIMessage {
                role: "system".into(),
                content: MessageContent::Text("Be concise.".into()),
            },
            OpenAIMessage {
                role: "user".into(),
                content: MessageContent::Text("First question".into()),
            },
            OpenAIMessage {
                role: "assistant".into(),
                content: MessageContent::Text("First answer".into()),
            },
            OpenAIMessage {
                role: "user".into(),
                content: MessageContent::Text("Second question".into()),
            },
        ],
        stream: false,
        temperature: None,
        user: None,
    };

    let translated = translate_openai_request(&request).unwrap();
    assert_eq!(translated.prompt, "Second question");
    assert_eq!(translated.additional_context.len(), 2);
    assert!(translated.additional_context[0].contains("Be concise."));
    assert!(translated.additional_context[1].contains("First question"));
}

#[test]
fn models_endpoint() {
    let settings = Settings::default();
    let json = list_models_json(&settings.model_alias);
    let data = json.get("data").unwrap().as_array().unwrap();
    assert_eq!(data[0].get_str("id"), Some("m365-copilot"));
    assert_eq!(data[0].get_str("owned_by"), Some("microsoft-365-copilot"));
    assert_eq!(json.get_str("object"), Some("list"));
}

#[test]
fn healthz_includes_token_status() {
    let token = make_jwt(now() + 3600, "https://substrate.office.com/sydney");
    let mut store = AccessTokenStore::new(token, ".env", None);
    let json = healthz_json(&store.status(None, None, now()));
    assert_eq!(json.get_str("status"), Some("ok"));
    let token = json.get("token").unwrap();
    assert!(matches!(token.get("valid"), Some(Json::Bool(true))));
}

#[test]
fn token_status_reports_expiry() {
    let token = make_jwt(now() + 3600, "https://substrate.office.com/sydney");
    let mut store = AccessTokenStore::new(token, ".env", None);
    let status = store.status(None, None, now());
    assert!(status.valid);
    assert!(status.expires_at.is_some());
    assert!(status.seconds_remaining > 0);
}

#[test]
fn rejects_non_substrate_token() {
    let token = make_jwt(now() + 3600, "394866fc-eedb");
    let mut store = AccessTokenStore::new(token.clone(), ".env", None);
    let status = store.status(None, None, now());
    assert!(!status.valid);
    assert_eq!(
        status.error.as_deref(),
        Some("Access token is not a substrate.office.com token.")
    );
    match SubstrateCopilotClient::new(&token, "Asia/Tokyo") {
        Err(err) => assert!(err.message().contains("not a substrate.office.com token")),
        Ok(_) => panic!("expected non-substrate token to be rejected"),
    }
}

#[test]
fn env_token_roundtrip() {
    let token = make_jwt(now() + 3600, "https://substrate.office.com/sydney");
    let written = write_token(Some("# M365_ACCESS_TOKEN=old\nOTHER=value\n"), &token);
    assert_eq!(read_env_token(&written).as_deref(), Some(token.as_str()));
    assert_eq!(written.matches("M365_ACCESS_TOKEN=").count(), 2);
}

#[test]
fn cli_helpers() {
    let token = make_jwt(now() + 3600, "https://substrate.office.com/sydney");
    let remaining = seconds_remaining(&token).unwrap();
    assert!(remaining > 0 && remaining <= 3600);
    assert!(is_substrate_token(&token));
    assert!(!is_substrate_token(&make_jwt(now() + 3600, "394866fc-eedb")));
    assert!(needs_substrate_token(None));
    assert!(needs_substrate_token(Some(&make_jwt(
        now() - 1,
        "https://substrate.office.com/sydney",
    ))));
    assert!(!needs_substrate_token(Some(&token)));
}

#[test]
fn finds_real_m365_page_not_devtools() {
    let tabs = vec![
        Json::object()
            .with("type", Json::text("page"))
            .with(
                "url",
                Json::text("devtools://devtools/bundled/devtools_app.html?remoteBase=https://m365.cloud.microsoft/chat"),
            ),
        Json::object()
            .with("type", Json::text("page"))
            .with("url", Json::text("https://m365.cloud.microsoft/chat")),
    ];
    let found = find_m365_page(&tabs).unwrap();
    assert_eq!(
        found.get("url").and_then(|v| v.as_str()),
        Some("https://m365.cloud.microsoft/chat")
    );
}

#[test]
fn persistent_session_turn_flags() {
    let mut store = PersistentSessionStore::default();
    let session = store.get("work");
    let first = session.reserve_turn();
    let second = session.reserve_turn();
    assert_eq!(first.conversation_id, second.conversation_id);
    assert_eq!(first.client_session_id, second.client_session_id);
    assert!(first.is_start_of_session);
    assert!(!second.is_start_of_session);
}

#[test]
fn jwt_decode_works() {
    let token = make_jwt(1234567890, "https://substrate.office.com/sydney");
    let claims = decode_jwt_payload(&token).unwrap();
    assert_eq!(claims.get("exp").and_then(|v| v.as_i64()), Some(1234567890));
}

#[test]
fn responses_requires_final_user_message() {
    let request = OpenAIResponsesRequest {
        model: "ignored".to_string(),
        input: ResponsesInput::Messages(vec![
            Json::object()
                .with("role", Json::text("user"))
                .with("content", Json::text("Hello")),
            Json::object()
                .with("role", Json::text("assistant"))
                .with("content", Json::text("Hi")),
        ]),
        instructions: None,
        stream: false,
    };
    match openai_responses(&request, None) {
        Ok(_) => panic!("expected a refusal"),
        Err(e) => {
            assert_eq!(e.status, 400);
            assert_eq!(
                e.body().get_str("detail"),
                Some("The final Responses input message must be a user message.")
            );
        }
    }
}

#[test]
fn chat_completion_with_fake_client() {
    let mut fake = FakeCopilotClient::simple("copilot reply");
    let request = chat_request(
        vec![
            OpenAIMessage {
                role: "system".to_string(),
                content: MessageContent::Text("Be concise.".to_string()),
            },
            user_message("Hello"),
        ],
        false,
    );
    let plan = match chat_completions(&request, None) {
        Ok(plan) => plan,
        Err(e) => panic!("refused: {}", e.detail),
    };
    assert!(!plan.stream);
    assert!(plan.session_key.is_none());
    let text = fake
        .chat(&plan.translated.prompt, &plan.translated.additional_context, None)
        .unwrap();
    let json = chat_completion_json("m365-copilot", &text, &completion_id(), now());
    let choices = json.get("choices").unwrap().as_array().unwrap();
    let message = choices[0].get("message").unwrap();
    assert_eq!(message.get_str("content"), Some("copilot reply"));
    assert_eq!(fake.calls.len(), 1);
    assert_eq!(fake.calls[0].0, "Hello");
    assert_eq!(fake.calls[0].1, vec!["System instructions:\nBe concise.".to_string()]);
}

#[test]
fn persistent_session_header_reuses_conversation() {
    let mut fake = FakeCopilotClient::simple("ok");
    let mut store = PersistentSessionStore::default();
    for _ in 0..2 {
        let request = chat_request(vec![user_message("Hello")], false);
        let plan = match chat_completions(&request, Some("work")) {
            Ok(plan) => plan,
            Err(e) => panic!("refused: {}", e.detail),
        };
        let session = store.get(&plan.session_key.unwrap());
        fake.chat(&plan.translated.prompt, &plan.translated.additional_context, Some(session))
            .unwrap();
    }
    let calls = &fake.calls;
    assert_eq!(calls.len(), 2);
    assert_eq!(calls[0].2, calls[1].2);
    assert!(calls[0].2.is_some());
}

fn streamed(mut fake: FakeCopilotClient) -> String {
    let request = chat_request(vec![user_message("Hello")], true);
    let plan = match chat_completions(&request, None) {
        Ok(plan) => plan,
        Err(e) => panic!("refused: {}", e.detail),
    };
    assert!(plan.stream);
    let mut stream = CompletionStream::new("m365-copilot".to_string(), completion_id(), now());
    let mut body = stream.start().concat();
    match fake.chat_stream(&plan.translated.prompt, &plan.translated.additional_context, None) {
        Ok(items) => {
            for item in items {
                let up = match item {
                    Ok(chunk) => Upstream::Chunk(chunk),
                    Err(e) => Upstream::Failed(e.message()),
                };
                body.push_str(&stream.next(&up).concat());
            }
            body.push_str(&stream.next(&Upstream::Ended).concat());
        }
        Err(e) => body.push_str(&stream.next(&Upstream::Failed(e.message())).concat()),
    }
    body
}

#[test]
fn openai_streaming_returns_sse_chunks() {
    let body = streamed(FakeCopilotClient::streaming(&["hello", " world"]));
    assert!(body.contains("hello"));
    assert!(body.contains(" world"));
    assert!(body.contains("data: [DONE]"));
    assert_eq!(body.matches("data: [DONE]").count(), 1);
    assert!(body.ends_with("data: [DONE]\n\n"));
}

#[test]
fn streaming_upstream_error_in_sse() {
    let body = streamed(FakeCopilotClient::failing_stream());
    assert!(body.contains("upstream_error"));
    assert!(body.contains("upstream broke"));
    assert!(body.contains("data: [DONE]"));
    assert!(body.ends_with("data: [DONE]\n\n"));
}
