use base64::engine::general_purpose::URL_SAFE_NO_PAD;
use base64::Engine;
use m365_copilot_proxy::json::parse_json;
use m365_copilot_proxy::session_store::{CopilotTurn, PersistentSession, PersistentSessionStore};
use m365_copilot_proxy::substrate_client::{
    combine_text, extract_assistant_text, invalid_request, stream_items, Frame, Reply,
    SubstrateCopilotClient, SubstrateCopilotError, CLOCK_UNREADABLE,
};

fn token(payload: &str) -> String {
    format!("eyJ0.{}.s", URL_SAFE_NO_PAD.encode(payload))
}

const CLAIMS: &str = "{\"aud\":\"https://substrate.office.com/x\",\"exp\":100,\"oid\":\"O\",\"tid\":\"T\"}";

fn client() -> SubstrateCopilotClient {
    match SubstrateCopilotClient::new_at(&token(CLAIMS), "Europe/Berlin", 50) {
        Ok(client) => client,
        Err(e) => panic!("{}", e.message()),
    }
}

fn refusal(token: &str, now: i64) -> String {
    match SubstrateCopilotClient::new_at(token, "UTC", now) {
        Ok(_) => panic!("expected a refusal"),
        Err(e) => e.message(),
    }
}

fn turn(start: bool) -> CopilotTurn {
    CopilotTurn {
        conversation_id: "conv".to_string(),
        client_session_id: "sess".to_string(),
        is_start_of_session: start,
    }
}

#[test]
fn a_client_by_what_the_clock_reads() {
    let made = |clock| SubstrateCopilotClient::new_by(&token(CLAIMS), "UTC", clock);
    assert!(made(Some(100)).is_ok());
    assert!(made(Some(101)).err().unwrap().message().starts_with("Access token expired."));
    assert_eq!(made(None).err().unwrap().message(), CLOCK_UNREADABLE);
    let missing = SubstrateCopilotClient::new_by("", "UTC", None).err().unwrap();
    assert!(missing.message().starts_with("M365_ACCESS_TOKEN is missing."));
    let lasting = CLAIMS.replace("100", "9000000000000");
    assert!(SubstrateCopilotClient::new(&token(&lasting), "UTC").is_ok());
    let expired = SubstrateCopilotClient::new(&token(CLAIMS), "UTC").err().unwrap();
    assert!(expired.message().starts_with("Access token expired."));
}

#[test]
fn each_refusal_of_a_token() {
    assert!(refusal("", 0).starts_with("M365_ACCESS_TOKEN is missing. Start the debug Edge window"));
    assert!(refusal("", 0).ends_with("or run `copilot-openai-proxy set-token`."));
    assert_eq!(refusal("x", 0), "Cannot decode access token: invalid JWT");
    assert_eq!(
        refusal(&token("{\"aud\":\"other\"}"), 0),
        "Access token is not a substrate.office.com token."
    );
    assert!(refusal(&token(CLAIMS), 101).starts_with("Access token expired. To refresh:"));
    assert!(refusal(&token(CLAIMS), 101).contains("DevTools → Network → filter 'substrate'"));
    assert_eq!(
        refusal(&token("{\"aud\":\"https://substrate.office.com/\",\"exp\":9}"), 9),
        "missing oid claim"
    );
    assert_eq!(
        refusal(&token("{\"aud\":\"https://substrate.office.com/\",\"exp\":9,\"oid\":\"O\"}"), 9),
        "missing tid claim"
    );
    assert!(SubstrateCopilotClient::new_at(&token(CLAIMS), "UTC", 100).is_ok());
    assert!(SubstrateCopilotClient::new(&token(CLAIMS), "UTC").is_err());
}

#[test]
fn the_address_names_everything() {
    let url = client().ws_url("C", "S", "R");
    assert!(url.starts_with(
        "wss://substrate.office.com/m365Copilot/Chathub/O@T?ClientRequestId=R&X-SessionId=S&ConversationId=C&access_token=eyJ0."
    ));
    assert!(url.contains(".s&variants=EnableMcpServerWidgets,feature.EnableMcpServerWidgets,"));
    assert!(url.ends_with(
        "Agt_bizchat_enableGpt5ForHelix&source=officeweb&product=Office&agentHost=Bizchat.FullScreen&licenseType=Starter&agent=web&scenario=OfficeWebIncludedCopilot"
    ));
}

#[test]
fn reserved_characters_of_a_token_are_encoded() {
    let odd = format!("{}+/=é", token(CLAIMS));
    let client = match SubstrateCopilotClient::new_at(&odd, "UTC", 0) {
        Ok(client) => client,
        Err(e) => panic!("{}", e.message()),
    };
    assert!(client.ws_url("C", "S", "R").contains(".s%2B%2F%3D%C3%A9&variants="));
}

#[test]
fn a_request_holds_prompt_names_and_time_zone() {
    let message = client().chat_invoke("hi \"you\"", "S", "R", true);
    assert!(message.ends_with('\u{1e}'));
    let json = parse_json(message.trim_end_matches('\u{1e}')).unwrap();
    assert_eq!(json.get_str("invocationId"), Some("0"));
    assert_eq!(json.get_str("target"), Some("chat"));
    assert_eq!(json.get_i64("type"), Some(4));
    let argument = &json.get("arguments").unwrap().as_array().unwrap()[0];
    assert_eq!(argument.get_str("sessionId"), Some("S"));
    assert_eq!(argument.get_str("traceId"), Some("R"));
    assert_eq!(argument.get("optionsSets").unwrap().as_array().unwrap().len(), 21);
    assert_eq!(argument.get("allowedMessageTypes").unwrap().as_array().unwrap().len(), 30);
    assert!(message.contains("\"isStartOfSession\":true"));
    let message = argument.get("message").unwrap();
    assert_eq!(message.get_str("text"), Some("hi \"you\""));
    let location = message.get("locationInfo").unwrap();
    assert_eq!(location.get_str("timeZone"), Some("Europe/Berlin"));
    assert_eq!(location.get_i64("timeZoneOffset"), Some(9));
}

#[test]
fn a_turn_is_sent_under_new_request_names() {
    let client = client();
    let context = vec!["ctx".to_string()];
    let a = client.chat_stream("p", &context, &turn(true));
    let b = client.chat_stream("p", &context, &turn(true));
    assert_eq!(a.handshake, "{\"protocol\":\"json\",\"version\":1}\u{1e}");
    assert_ne!(a.url, b.url);
    assert!(a.url.contains("&ConversationId=conv&"));
    assert!(a.invoke.contains("ctx\\n\\n---\\n\\np"));
    let fixed = client.chat_stream_for_turn("text", &turn(false), "R");
    assert_eq!(fixed.url, client.ws_url("conv", "sess", "R"));
    assert_eq!(fixed.invoke, client.chat_invoke("text", "sess", "R", false));
}

#[test]
fn context_goes_before_the_prompt() {
    assert_eq!(combine_text("p", &[]), "p");
    let context = vec!["a".to_string(), "b".to_string()];
    assert_eq!(combine_text("p", &context), "a\n\nb\n\n---\n\np");
}

#[test]
fn the_last_text_that_is_not_the_users_counts() {
    let text = |s: &str| extract_assistant_text(&parse_json(s).unwrap());
    assert_eq!(text(r#"[{"author":"bot","text":"a"},{"text":"b"},{"author":"user","text":"c"}]"#), "b");
    assert_eq!(text(r#"[{"author":"user","text":"c"}]"#), "");
    assert_eq!(text(r#"{"author":"bot","text":"x"}"#), "x");
    assert_eq!(text(r#"{"author":"user","text":"x"}"#), "");
    assert_eq!(text(r#"[{"author":"bot"}]"#), "");
    assert_eq!(text("[]"), "");
}

fn update(delta: Option<&str>, whole: Option<&str>) -> String {
    let mut argument = String::new();
    if let Some(delta) = delta {
        argument.push_str(&format!("\"writeAtCursor\":\"{delta}\""));
    }
    if let Some(whole) = whole {
        if !argument.is_empty() {
            argument.push(',');
        }
        argument.push_str(&format!("\"messages\":[{{\"author\":\"bot\",\"text\":\"{whole}\"}}]"));
    }
    format!("{{\"type\":1,\"target\":\"update\",\"arguments\":[{{{argument}}}]}}\u{1e}")
}

fn replied(frames: &[Frame]) -> Vec<String> {
    let mut reply = Reply::new();
    reply.take_frames(frames);
    reply.chunks
}

fn text(s: String) -> Frame {
    Frame::Text(s)
}

#[test]
fn pieces_are_handed_out_as_they_come() {
    let chunks = replied(&[
        text(update(Some("Hel"), None)),
        text(format!("{}{}", update(Some("lo"), None), update(Some(""), None))),
        text("{\"type\":3}\u{1e}".to_string()),
    ]);
    assert_eq!(chunks, ["Hel", "lo"]);
}

#[test]
fn a_reply_without_pieces_is_handed_out_at_its_end() {
    let chunks = replied(&[
        text("{\"type\":6}\u{1e}".to_string()),
        text(update(None, Some("draft"))),
        text("{\"type\":2,\"item\":{\"messages\":[{\"author\":\"bot\",\"text\":\"whole\"}]}}\u{1e}".to_string()),
        text("{\"type\":3}\u{1e}".to_string()),
    ]);
    assert_eq!(chunks, ["whole"]);
}

#[test]
fn what_was_held_back_comes_before_the_first_piece() {
    let chunks = replied(&[text(update(None, Some("so far"))), text(update(Some(" more"), None))]);
    assert_eq!(chunks, ["so far", " more"]);
}

#[test]
fn noise_is_passed_over() {
    let chunks = replied(&[
        Frame::Other,
        text("not json\u{1e}  \u{1e}".to_string()),
        text("{\"type\":1,\"target\":\"other\",\"arguments\":[{\"writeAtCursor\":\"x\"}]}\u{1e}".to_string()),
        text("{\"type\":1,\"target\":\"update\",\"arguments\":[]}\u{1e}".to_string()),
        text("{\"type\":1,\"target\":\"update\"}\u{1e}".to_string()),
    ]);
    assert!(chunks.is_empty());
}

#[test]
fn the_end_hides_the_rest_of_its_frame_and_the_close_the_rest() {
    let frame = format!("{}{{\"type\":3}}\u{1e}{}", update(Some("a"), None), update(Some("b"), None));
    assert_eq!(replied(&[text(frame)]), ["a"]);
    let chunks = replied(&[
        text(update(Some("a"), None)),
        Frame::Close,
        text(update(Some("b"), None)),
    ]);
    assert_eq!(chunks, ["a"]);
}

#[test]
fn binary_frames_are_read_as_text() {
    let mut bytes = update(Some("né"), None).into_bytes();
    assert_eq!(replied(&[Frame::Binary(bytes.clone())]), ["né"]);
    let at = bytes.iter().position(|b| *b == 0xc3).unwrap();
    bytes[at] = 0xff;
    assert_eq!(replied(&[Frame::Binary(bytes)]), ["n\u{fffd}\u{fffd}"]);
}

#[test]
fn a_whole_reply_is_its_chunks_or_its_error() {
    let items = stream_items(Ok(vec!["a".to_string(), "b".to_string()]));
    assert_eq!(SubstrateCopilotClient::chat(items).unwrap(), "ab");
    let items = stream_items(Err("gone".to_string()));
    assert_eq!(items.len(), 1);
    assert_eq!(SubstrateCopilotClient::chat(items).unwrap_err().0, "gone");
    let items = vec![
        Ok("a".to_string()),
        Err(SubstrateCopilotError("first".to_string())),
        Err(SubstrateCopilotError("second".to_string())),
    ];
    assert_eq!(SubstrateCopilotClient::chat(items).unwrap_err().message(), "first");
}

#[test]
fn sessions_are_kept_by_key() {
    let mut store = PersistentSessionStore::default();
    let work = store.get("work").conversation_id.clone();
    let home = store.get("home").conversation_id.clone();
    assert_ne!(work, home);
    assert_eq!(work.len(), 36);
    assert_eq!(work.matches('-').count(), 4);
    assert_eq!(store.get("work").conversation_id, work);
    assert!(store.get("work").reserve_turn().is_start_of_session);
    assert!(!store.get("work").reserve_turn().is_start_of_session);
    assert!(store.get("home").reserve_turn().is_start_of_session);
}

#[test]
fn a_single_turn_starts_its_own_conversation() {
    let a = CopilotTurn::single();
    let b = CopilotTurn::single();
    assert!(a.is_start_of_session);
    assert_ne!(a.conversation_id, b.conversation_id);
    assert_ne!(a.conversation_id, a.client_session_id);
}

#[test]
fn turns_are_counted_up_to_the_limit() {
    let mut session = PersistentSession::with_ids("c".to_string(), "s".to_string());
    session.turn_count = u32::MAX - 1;
    assert!(session.can_reserve());
    assert!(!session.reserve_turn().is_start_of_session);
    assert!(!session.can_reserve());
}

#[test]
fn a_refused_request_is_told() {
    assert_eq!(invalid_request("bad url"), "invalid websocket request: bad url");
}
