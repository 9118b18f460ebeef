use m365_copilot_proxy::json::{parse_json, Json};
use m365_copilot_proxy::models::{
    AnthropicMessage, AnthropicMessagesRequest, ContentPart, MessageContent, OpenAIChatRequest,
    OpenAIMessage, OpenAIResponsesRequest, ResponsesInput,
};
use m365_copilot_proxy::translator::{
    capitalize_role, extract_item_content, flatten_content, flatten_optional_content, join_lines,
    translate_anthropic_request, translate_openai_request, translate_responses_request,
};

fn openai(messages: &[(&str, &str)]) -> OpenAIChatRequest {
    OpenAIChatRequest {
        model: "m".to_string(),
        messages: messages
            .iter()
            .map(|(role, text)| OpenAIMessage {
                role: role.to_string(),
                content: MessageContent::Text(text.to_string()),
            })
            .collect(),
        stream: false,
        temperature: None,
        user: None,
    }
}

fn anthropic(system: Option<&str>, messages: &[(&str, &str)]) -> AnthropicMessagesRequest {
    AnthropicMessagesRequest {
        model: "m".to_string(),
        messages: messages
            .iter()
            .map(|(role, text)| AnthropicMessage {
                role: role.to_string(),
                content: MessageContent::Text(text.to_string()),
            })
            .collect(),
        system: system.map(|s| MessageContent::Text(s.to_string())),
        stream: false,
    }
}

fn responses(input: ResponsesInput, instructions: Option<&str>) -> OpenAIResponsesRequest {
    OpenAIResponsesRequest {
        model: "m".to_string(),
        input,
        instructions: instructions.map(|s| s.to_string()),
        stream: false,
    }
}

fn item(role: &str, text: &str) -> Json {
    Json::object().with("role", Json::text(role)).with("content", Json::text(text))
}

#[test]
fn parts_are_flattened_to_their_texts() {
    let part = |kind: &str, text: Option<&str>| ContentPart {
        part_type: kind.to_string(),
        text: text.map(|t| t.to_string()),
    };
    let content = MessageContent::Parts(vec![
        part("text", Some("a")),
        part("image_url", Some("no")),
        part("text", None),
        part("text", Some("b")),
    ]);
    assert_eq!(flatten_content(&content), "ab");
    assert_eq!(flatten_optional_content(Some(&content)), "ab");
    assert_eq!(flatten_optional_content(None), "");
}

#[test]
fn lines_are_joined_without_the_empty_ones() {
    let lines = vec!["".to_string(), " a".to_string(), "b".to_string(), "".to_string()];
    assert_eq!(join_lines(&lines), "a\nb");
    assert_eq!(join_lines(&[]), "");
}

#[test]
fn roles_are_capitalized() {
    assert_eq!(capitalize_role("user"), "User");
    assert_eq!(capitalize_role(""), "");
    assert_eq!(capitalize_role("ßx"), "SSx");
}

#[test]
fn item_content_is_read_in_each_form() {
    assert_eq!(extract_item_content(&item("user", "plain")), "plain");
    let parts = parse_json(
        r#"{"content":[{"type":"text","text":"a"},{"type":"input_text","text":"b"},
            {"type":"image","text":"no"},{"text":"no"},{"type":"text"}]}"#,
    )
    .unwrap();
    assert_eq!(extract_item_content(&parts), "ab");
    let other = parse_json(r#"{"type":"x","n":1}"#).unwrap();
    assert_eq!(extract_item_content(&other), r#"{"n":1,"type":"x"}"#);
}

#[test]
fn openai_context_has_instructions_and_transcript() {
    let request = openai(&[
        ("system", " one "),
        ("user", "q1"),
        ("developer", "two"),
        ("assistant", "a1"),
        ("user", "  q2 "),
    ]);
    let t = translate_openai_request(&request).unwrap();
    assert_eq!(t.prompt, "q2");
    assert_eq!(
        t.additional_context,
        vec![
            "System instructions:\none\ntwo".to_string(),
            "Prior conversation transcript:\nUser: q1\nAssistant: a1".to_string(),
        ]
    );
}

#[test]
fn openai_refusals() {
    let last_is_assistant = openai(&[("user", "q"), ("assistant", "a")]);
    assert_eq!(
        translate_openai_request(&last_is_assistant).err().as_deref(),
        Some("The final OpenAI message must be a user message.")
    );
    for request in [openai(&[]), openai(&[("user", "q"), ("user", "  ")]), openai(&[("system", "s")])] {
        assert_eq!(
            translate_openai_request(&request).err().as_deref(),
            Some("A final user message is required.")
        );
    }
}

#[test]
fn responses_text_is_taken_as_it_is() {
    let t = translate_responses_request(&responses(
        ResponsesInput::Text(" hi ".to_string()),
        Some(" be brief "),
    ))
    .unwrap();
    assert_eq!(t.prompt, " hi ");
    assert_eq!(t.additional_context, vec!["System instructions:\n be brief ".to_string()]);
    let t =
        translate_responses_request(&responses(ResponsesInput::Text(String::new()), Some("")))
            .unwrap();
    assert_eq!(t.prompt, "");
    assert!(t.additional_context.is_empty());
}

#[test]
fn responses_messages_and_refusals() {
    let t = translate_responses_request(&responses(
        ResponsesInput::Messages(vec![item("system", "s"), item("user", "a"), item("user", "b")]),
        Some("i"),
    ))
    .unwrap();
    assert_eq!(t.prompt, "b");
    assert_eq!(
        t.additional_context,
        vec![
            "System instructions:\ni\ns".to_string(),
            "Prior conversation transcript:\nUser: a".to_string(),
        ]
    );
    let none = responses(ResponsesInput::Messages(vec![]), None);
    assert_eq!(
        translate_responses_request(&none).err().as_deref(),
        Some("No user message found in input.")
    );
    let wrong = responses(ResponsesInput::Messages(vec![item("tool", "x")]), None);
    assert_eq!(
        translate_responses_request(&wrong).err().as_deref(),
        Some("The final Responses input message must be a user message.")
    );
}

#[test]
fn anthropic_context_and_refusals() {
    let t = translate_anthropic_request(&anthropic(
        Some(" be kind "),
        &[("user", "q"), ("assistant", "a"), ("user", "r")],
    ))
    .unwrap();
    assert_eq!(t.prompt, "r");
    assert_eq!(
        t.additional_context,
        vec![
            "System instructions:\nbe kind".to_string(),
            "Prior conversation transcript:\nUser: q\nAssistant: a".to_string(),
        ]
    );
    assert_eq!(
        translate_anthropic_request(&anthropic(None, &[("assistant", "a")])).err().as_deref(),
        Some("The final Anthropic message must be a user message.")
    );
    assert_eq!(
        translate_anthropic_request(&anthropic(None, &[])).err().as_deref(),
        Some("A final user message is required.")
    );
}

#[test]
fn blank_turns_are_ignored() {
    let with_blank = openai(&[("assistant", " "), ("user", "q")]);
    let without = openai(&[("user", "q")]);
    let a = translate_openai_request(&with_blank).unwrap();
    let b = translate_openai_request(&without).unwrap();
    assert_eq!((a.prompt, a.additional_context), (b.prompt, b.additional_context));
}

#[test]
fn plain_conversations_agree_over_the_endpoints() {
    let turns = [("user", "q"), ("assistant", "a"), ("user", "r")];
    let o = translate_openai_request(&openai(&turns)).unwrap();
    let a = translate_anthropic_request(&anthropic(None, &turns)).unwrap();
    let items = turns.iter().map(|(role, text)| item(role, text)).collect();
    let r = translate_responses_request(&responses(ResponsesInput::Messages(items), None)).unwrap();
    assert_eq!(o.prompt, a.prompt);
    assert_eq!(o.prompt, r.prompt);
    assert_eq!(o.additional_context, a.additional_context);
    assert_eq!(o.additional_context, r.additional_context);
}
