use m365_copilot_proxy::json::{print_json, Json};
use m365_copilot_proxy::models::{
    AnthropicMessage, AnthropicMessagesRequest, MessageContent, OpenAIChatRequest, OpenAIMessage,
    OpenAIResponsesRequest, ResponsesInput,
};
use m365_copilot_proxy::routes::{
    anthropic_messages, chat_completion_json, chat_completions, completion_id, healthz_json,
    list_models_json, message_id, message_json, openai_responses, persistent_session, response_id,
    response_json, sse_data, sse_event, AppError, CompletionStream, MessageStream, ResponseStream,
    Upstream,
};
use m365_copilot_proxy::substrate_client::SubstrateCopilotError;
use m365_copilot_proxy::token_store::token_status_at;

#[test]
fn the_header_comes_before_the_model() {
    let key = |header, model, user| persistent_session(header, model, user);
    assert_eq!(key(Some(" work "), "m:persist", Some("u")).as_deref(), Some("header:work"));
    assert_eq!(key(Some("  "), "m:persist", Some("u")).as_deref(), Some("model:u"));
    assert_eq!(key(None, "m:persist", None).as_deref(), Some("model:default"));
    assert_eq!(key(None, "m:persist", Some("")).as_deref(), Some("model:"));
    assert_eq!(key(None, "m:persisted", Some("u")), None);
    assert_eq!(key(None, "m", Some("u")), None);
}

#[test]
fn names_have_their_prefixes() {
    for (id, prefix) in
        [(completion_id(), "chatcmpl_"), (response_id(), "resp_"), (message_id(), "msg_")]
    {
        let uuid = id.strip_prefix(prefix).unwrap();
        assert_eq!(uuid.len(), 32);
        assert!(uuid.chars().all(|c| c.is_ascii_hexdigit() && !c.is_ascii_uppercase()));
        assert_eq!(uuid.as_bytes()[12], b'4');
    }
    assert_ne!(completion_id(), completion_id());
}

#[test]
fn whole_answers_are_exact() {
    assert_eq!(
        print_json(&list_models_json("alias")),
        r#"{"data":[{"id":"alias","object":"model","owned_by":"microsoft-365-copilot"}],"object":"list"}"#
    );
    assert_eq!(
        print_json(&chat_completion_json("alias", "hi", "id1", 7)),
        r#"{"choices":[{"finish_reason":"stop","index":0,"message":{"content":"hi","role":"assistant"}}],"created":7,"id":"id1","model":"alias","object":"chat.completion"}"#
    );
    assert_eq!(
        print_json(&response_json("alias", "hi", "r1", "m1", 7)),
        r#"{"created_at":7,"id":"r1","model":"alias","object":"response","output":[{"content":[{"text":"hi","type":"output_text"}],"id":"m1","role":"assistant","type":"message"}],"usage":{"input_tokens":0,"output_tokens":0,"total_tokens":0}}"#
    );
    assert_eq!(
        print_json(&message_json("alias", "hi", "m1")),
        r#"{"content":[{"text":"hi","type":"text"}],"id":"m1","model":"alias","role":"assistant","stop_reason":"end_turn","stop_sequence":null,"type":"message","usage":{"input_tokens":0,"output_tokens":0}}"#
    );
    assert_eq!(
        print_json(&healthz_json(&token_status_at("x", 0))),
        r#"{"status":"ok","token":{"error":"Cannot decode access token: invalid JWT","seconds_remaining":0,"valid":false}}"#
    );
}

#[test]
fn events_are_framed() {
    let data = Json::object().with("a", Json::integer(1));
    assert_eq!(sse_data(&data), "data: {\"a\":1}\n\n");
    assert_eq!(sse_event("ping", &data), "event: ping\ndata: {\"a\":1}\n\n");
}

#[test]
fn a_completion_stream_from_start_to_end() {
    let mut s = CompletionStream::new("alias".to_string(), "id1".to_string(), 7);
    assert_eq!(
        s.start(),
        ["data: {\"choices\":[{\"delta\":{\"role\":\"assistant\"},\"finish_reason\":null,\"index\":0}],\"created\":7,\"id\":\"id1\",\"model\":\"alias\",\"object\":\"chat.completion.chunk\"}\n\n"]
    );
    assert_eq!(
        s.next(&Upstream::Chunk("a".to_string())),
        ["data: {\"choices\":[{\"delta\":{\"content\":\"a\"},\"finish_reason\":null,\"index\":0}],\"created\":7,\"id\":\"id1\",\"model\":\"alias\",\"object\":\"chat.completion.chunk\"}\n\n"]
    );
    assert_eq!(
        s.next(&Upstream::Ended),
        [
            "data: {\"choices\":[{\"delta\":{},\"finish_reason\":\"stop\",\"index\":0}],\"created\":7,\"id\":\"id1\",\"model\":\"alias\",\"object\":\"chat.completion.chunk\"}\n\n",
            "data: [DONE]\n\n",
        ]
    );
    assert!(s.next(&Upstream::Chunk("late".to_string())).is_empty());
    assert!(s.next(&Upstream::Ended).is_empty());
}

#[test]
fn a_completion_stream_that_fails() {
    let mut s = CompletionStream::new("alias".to_string(), "id1".to_string(), 7);
    assert_eq!(
        s.next(&Upstream::Failed("gone".to_string())),
        [
            "data: {\"error\":{\"message\":\"gone\",\"type\":\"upstream_error\"}}\n\n",
            "data: [DONE]\n\n",
        ]
    );
    assert!(s.done);
}

#[test]
fn a_response_stream_gathers_its_text() {
    let mut s = ResponseStream::new("alias".to_string(), "r1".to_string(), "m1".to_string(), 7);
    let start = s.start();
    assert_eq!(start.len(), 3);
    assert_eq!(
        start[0],
        "data: {\"response\":{\"created_at\":7,\"id\":\"r1\",\"model\":\"alias\",\"object\":\"response\",\"output\":[],\"status\":\"in_progress\"},\"type\":\"response.created\"}\n\n"
    );
    assert!(start[1].contains("\"type\":\"response.output_item.added\""));
    assert!(start[2].contains("\"type\":\"response.content_part.added\""));
    assert_eq!(
        s.next(&Upstream::Chunk("Hel".to_string())),
        ["data: {\"content_index\":0,\"delta\":\"Hel\",\"item_id\":\"m1\",\"output_index\":0,\"type\":\"response.output_text.delta\"}\n\n"]
    );
    s.next(&Upstream::Chunk("lo".to_string()));
    let end = s.next(&Upstream::Ended);
    assert_eq!(
        end[0],
        "data: {\"content_index\":0,\"item_id\":\"m1\",\"output_index\":0,\"text\":\"Hello\",\"type\":\"response.output_text.done\"}\n\n"
    );
    assert_eq!(
        end[1],
        "data: {\"response\":{\"created_at\":7,\"id\":\"r1\",\"model\":\"alias\",\"object\":\"response\",\"output\":[{\"content\":[{\"text\":\"Hello\",\"type\":\"output_text\"}],\"id\":\"m1\",\"role\":\"assistant\",\"type\":\"message\"}],\"status\":\"completed\",\"usage\":{\"input_tokens\":0,\"output_tokens\":0,\"total_tokens\":0}},\"type\":\"response.completed\"}\n\n"
    );
    assert_eq!(end.len(), 2);
    assert!(s.next(&Upstream::Ended).is_empty());
}

#[test]
fn a_response_stream_that_fails_is_not_completed() {
    let mut s = ResponseStream::new("alias".to_string(), "r1".to_string(), "m1".to_string(), 7);
    assert_eq!(
        s.next(&Upstream::Failed("gone".to_string())),
        ["data: {\"error\":{\"message\":\"gone\",\"type\":\"upstream_error\"},\"type\":\"error\"}\n\n"]
    );
    assert!(s.next(&Upstream::Ended).is_empty());
}

#[test]
fn a_message_stream_from_start_to_end() {
    let mut s = MessageStream::new("alias".to_string(), "m1".to_string());
    assert_eq!(
        s.start(),
        [
            "event: message_start\ndata: {\"message\":{\"content\":[],\"id\":\"m1\",\"model\":\"alias\",\"role\":\"assistant\",\"stop_reason\":null,\"stop_sequence\":null,\"type\":\"message\",\"usage\":{\"input_tokens\":0,\"output_tokens\":0}},\"type\":\"message_start\"}\n\n",
            "event: content_block_start\ndata: {\"content_block\":{\"text\":\"\",\"type\":\"text\"},\"index\":0,\"type\":\"content_block_start\"}\n\n",
            "event: ping\ndata: {\"type\":\"ping\"}\n\n",
        ]
    );
    assert_eq!(
        s.next(&Upstream::Chunk("a".to_string())),
        ["event: content_block_delta\ndata: {\"delta\":{\"text\":\"a\",\"type\":\"text_delta\"},\"index\":0,\"type\":\"content_block_delta\"}\n\n"]
    );
    assert_eq!(
        s.next(&Upstream::Ended),
        [
            "event: content_block_stop\ndata: {\"index\":0,\"type\":\"content_block_stop\"}\n\n",
            "event: message_delta\ndata: {\"delta\":{\"stop_reason\":\"end_turn\",\"stop_sequence\":null},\"type\":\"message_delta\",\"usage\":{\"output_tokens\":0}}\n\n",
            "event: message_stop\ndata: {\"type\":\"message_stop\"}\n\n",
        ]
    );
    assert!(s.next(&Upstream::Ended).is_empty());
}

#[test]
fn a_message_stream_that_fails() {
    let mut s = MessageStream::new("alias".to_string(), "m1".to_string());
    assert_eq!(
        s.next(&Upstream::Failed("gone".to_string())),
        ["event: error\ndata: {\"error\":{\"message\":\"gone\",\"type\":\"upstream_error\"},\"type\":\"error\"}\n\n"]
    );
    assert!(s.next(&Upstream::Ended).is_empty());
}

#[test]
fn errors_have_a_status_and_a_body() {
    let e = AppError::from(SubstrateCopilotError("hub down".to_string()));
    assert_eq!(e.status, 502);
    assert_eq!(print_json(&e.body()), "{\"detail\":\"hub down\"}");
    assert_eq!(AppError::bad_request("no".to_string()).status, 400);
}

#[test]
fn plans_carry_translation_conversation_and_streaming() {
    let request = OpenAIChatRequest {
        model: "m:persist".to_string(),
        messages: vec![OpenAIMessage {
            role: "user".to_string(),
            content: MessageContent::Text("q".to_string()),
        }],
        stream: true,
        temperature: None,
        user: Some("me".to_string()),
    };
    let plan = chat_completions(&request, None).ok().unwrap();
    assert_eq!(plan.translated.prompt, "q");
    assert_eq!(plan.session_key.as_deref(), Some("model:me"));
    assert!(plan.stream);

    let request = OpenAIResponsesRequest {
        model: "m:persist".to_string(),
        input: ResponsesInput::Text("q".to_string()),
        instructions: None,
        stream: false,
    };
    let plan = openai_responses(&request, None).ok().unwrap();
    assert_eq!(plan.session_key.as_deref(), Some("model:default"));
    assert!(!plan.stream);

    let request = AnthropicMessagesRequest {
        model: "m".to_string(),
        messages: vec![AnthropicMessage {
            role: "assistant".to_string(),
            content: MessageContent::Text("a".to_string()),
        }],
        system: None,
        stream: false,
    };
    let e = anthropic_messages(&request, Some("x")).err().unwrap();
    assert_eq!(e.status, 400);
    assert_eq!(e.detail, "The final Anthropic message must be a user message.");
}
