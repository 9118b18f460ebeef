//! What the HTTP endpoints answer: which conversation a request belongs to, the bodies of whole
//! answers, the events of streamed ones, and errors.
use vstd::prelude::*;
use vstd::string::*;

use crate::json::{self, print_json, Json, JsonTree};
use crate::models::{
    AnthropicMessagesRequest, OpenAIChatRequest, OpenAIResponsesRequest, TranslatedRequest,
    Translation,
};
use crate::session_store::{self, fresh_simple_uuid};
use crate::substrate_client::SubstrateCopilotError;
use crate::text::{self, ends_with, trim_text};
use crate::token_store::{self, TokenStatus};
use crate::translator::{
    self, translate_anthropic_request, translate_openai_request, translate_responses_request,
};

verus! {

/// What the name of a model ends in where its conversation is to last.
pub const PERSIST_MODEL_SUFFIX: &'static str = ":persist";

/// The header that names a conversation.
pub const SESSION_ID_HEADER: &'static str = "x-m365-session-id";

// ---------------------------------------------------------------------------------------------
// Errors
// ---------------------------------------------------------------------------------------------

/// An answer that is an error: its HTTP status and what went wrong.
pub struct AppError {
    pub status: u16,
    pub detail: String,
}

impl AppError {
    /// The request was wrong.
    pub fn bad_request(detail: String) -> (error: Self)
        ensures
            error.status == 400,
            error.detail == detail,
    {
        AppError { status: 400, detail }
    }

    /// The body of the answer.
    pub fn body(&self) -> (json: Json)
        ensures
            json.tree() == JsonTree::Object(
                Map::<Seq<char>, JsonTree>::empty().insert("detail"@, JsonTree::Str(self.detail@)),
            ),
    {
        Json::object().with("detail", Json::text(self.detail.as_str()))
    }
}

impl From<SubstrateCopilotError> for AppError {
    /// The hub could not be used.
    fn from(err: SubstrateCopilotError) -> (error: Self) {
        AppError { status: 502, detail: err.0 }
    }
}

impl vstd::std_specs::convert::FromSpecImpl<SubstrateCopilotError> for AppError {
    open spec fn obeys_from_spec() -> bool {
        true
    }

    open spec fn from_spec(err: SubstrateCopilotError) -> AppError {
        AppError { status: 502, detail: err.0 }
    }
}

// ---------------------------------------------------------------------------------------------
// Requests
// ---------------------------------------------------------------------------------------------

/// The key of the conversation that a request belongs to: what the header names, if it names
/// anything; for a model whose name says so, the caller's key; else none.
pub open spec fn session_key_of(
    header: Option<Seq<char>>,
    model: Seq<char>,
    fallback_key: Option<Seq<char>>,
) -> Option<Seq<char>> {
    let named = match header {
        Some(value) => text::trimmed(value),
        None => Seq::empty(),
    };
    if named.len() > 0 {
        Some("header:"@ + named)
    } else if text::finishes_with(model, PERSIST_MODEL_SUFFIX@) {
        Some(
            "model:"@ + match fallback_key {
                Some(key) => key,
                None => "default"@,
            },
        )
    } else {
        None
    }
}

/// The key of the conversation that a request belongs to, by the value of its header, its model
/// and the caller's own key.
pub fn persistent_session(header: Option<&str>, model: &str, fallback_key: Option<&str>) -> (key:
    Option<String>)
    ensures
        text::string_view(key) == session_key_of(
            text::text_view(header),
            model@,
            text::text_view(fallback_key),
        ),
{
    let named = match header {
        Some(value) => trim_text(value),
        None => String::new(),
    };
    if named.as_str().unicode_len() > 0 {
        let mut key = "header:".to_owned();
        key.append(named.as_str());
        return Some(key);
    }
    if ends_with(model, PERSIST_MODEL_SUFFIX) {
        let mut key = "model:".to_owned();
        key.append(
            match fallback_key {
                Some(fallback) => fallback,
                None => "default",
            },
        );
        return Some(key);
    }
    None
}

/// What is done for a request: the prompt with its context goes to the hub, in the conversation
/// of the key if there is one, and the reply is streamed or not.
pub struct ChatPlan {
    pub translated: TranslatedRequest,
    pub session_key: Option<String>,
    pub stream: bool,
}

/// What is done for a request.
pub struct PlanView {
    pub translated: Translation,
    pub session_key: Option<Seq<char>>,
    pub stream: bool,
}

impl View for ChatPlan {
    type V = PlanView;

    open spec fn view(&self) -> PlanView {
        PlanView {
            translated: self.translated@,
            session_key: text::string_view(self.session_key),
            stream: self.stream,
        }
    }
}

/// What is done for a request that was translated, or the refusal of one that could not be.
pub open spec fn planned(
    translated: Result<Translation, Seq<char>>,
    session_key: Option<Seq<char>>,
    stream: bool,
) -> Result<PlanView, Seq<char>> {
    match translated {
        Ok(translated) => Ok(PlanView { translated, session_key, stream }),
        Err(message) => Err(message),
    }
}

/// `plan` is what is wanted, or a refusal with status 400 and the wanted text.
pub open spec fn plans(
    plan: Result<ChatPlan, AppError>,
    wanted: Result<PlanView, Seq<char>>,
) -> bool {
    match plan {
        Ok(plan) => wanted == Ok::<PlanView, Seq<char>>(plan@),
        Err(e) => e.status == 400 && wanted == Err::<PlanView, Seq<char>>(e.detail@),
    }
}

/// What is done for a chat request, by the value of the header that names a conversation.
pub open spec fn chat_completions_plan(
    request: OpenAIChatRequest,
    header: Option<Seq<char>>,
) -> Result<PlanView, Seq<char>> {
    planned(
        translator::openai_translation(request),
        session_key_of(header, request.model@, text::string_view(request.user)),
        request.stream,
    )
}

/// What is done for a Responses request.
pub open spec fn responses_plan(
    request: OpenAIResponsesRequest,
    header: Option<Seq<char>>,
) -> Result<PlanView, Seq<char>> {
    planned(
        translator::responses_translation(request),
        session_key_of(header, request.model@, None),
        request.stream,
    )
}

/// What is done for an Anthropic request.
pub open spec fn messages_plan(
    request: AnthropicMessagesRequest,
    header: Option<Seq<char>>,
) -> Result<PlanView, Seq<char>> {
    planned(
        translator::anthropic_translation(request),
        session_key_of(header, request.model@, None),
        request.stream,
    )
}

/// What is done for a chat request; a request that cannot be translated is refused.
pub fn chat_completions(request: &OpenAIChatRequest, header: Option<&str>) -> (plan: Result<
    ChatPlan,
    AppError,
>)
    ensures
        plans(plan, chat_completions_plan(*request, text::text_view(header))),
{
    match translate_openai_request(request) {
        Ok(translated) => {
            let user = match &request.user {
                Some(user) => Some(user.as_str()),
                None => None,
            };
            let session_key = persistent_session(header, request.model.as_str(), user);
            Ok(ChatPlan { translated, session_key, stream: request.stream })
        },
        Err(message) => Err(AppError::bad_request(message)),
    }
}

/// What is done for a Responses request; a request that cannot be translated is refused.
pub fn openai_responses(request: &OpenAIResponsesRequest, header: Option<&str>) -> (plan: Result<
    ChatPlan,
    AppError,
>)
    ensures
        plans(plan, responses_plan(*request, text::text_view(header))),
{
    match translate_responses_request(request) {
        Ok(translated) => {
            let session_key = persistent_session(header, request.model.as_str(), None);
            Ok(ChatPlan { translated, session_key, stream: request.stream })
        },
        Err(message) => Err(AppError::bad_request(message)),
    }
}

/// What is done for an Anthropic request; a request that cannot be translated is refused.
pub fn anthropic_messages(request: &AnthropicMessagesRequest, header: Option<&str>) -> (plan:
    Result<ChatPlan, AppError>)
    ensures
        plans(plan, messages_plan(*request, text::text_view(header))),
{
    match translate_anthropic_request(request) {
        Ok(translated) => {
            let session_key = persistent_session(header, request.model.as_str(), None);
            Ok(ChatPlan { translated, session_key, stream: request.stream })
        },
        Err(message) => Err(AppError::bad_request(message)),
    }
}

// ---------------------------------------------------------------------------------------------
// Whole answers
// ---------------------------------------------------------------------------------------------

/// A new name for a completion.
pub fn completion_id() -> (id: String)
    ensures
        exists|uuid: Seq<char>|
            session_store::simple_uuid_text(uuid) && id@ == #[trigger] ("chatcmpl_"@ + uuid),
{
    let uuid = fresh_simple_uuid();
    let mut id = "chatcmpl_".to_owned();
    id.append(uuid.as_str());
    assert(id@ == "chatcmpl_"@ + uuid@);
    id
}

/// A new name for a response.
pub fn response_id() -> (id: String)
    ensures
        exists|uuid: Seq<char>|
            session_store::simple_uuid_text(uuid) && id@ == #[trigger] ("resp_"@ + uuid),
{
    let uuid = fresh_simple_uuid();
    let mut id = "resp_".to_owned();
    id.append(uuid.as_str());
    assert(id@ == "resp_"@ + uuid@);
    id
}

/// A new name for a message.
pub fn message_id() -> (id: String)
    ensures
        exists|uuid: Seq<char>|
            session_store::simple_uuid_text(uuid) && id@ == #[trigger] ("msg_"@ + uuid),
{
    let uuid = fresh_simple_uuid();
    let mut id = "msg_".to_owned();
    id.append(uuid.as_str());
    assert(id@ == "msg_"@ + uuid@);
    id
}

/// The answer of `GET /healthz`.
pub open spec fn health_tree(token: JsonTree) -> JsonTree {
    JsonTree::Object(
        Map::<Seq<char>, JsonTree>::empty()
            .insert("status"@, JsonTree::Str("ok"@))
            .insert("token"@, token),
    )
}

/// The answer of `GET /healthz`.
pub fn healthz_json(token: &TokenStatus) -> (json: Json)
    ensures
        json.tree() == health_tree(token_store::status_tree(token@)),
{
    Json::object().with("status", Json::text("ok")).with("token", token.to_json())
}

/// The answer of `GET /v1/models`: the one model there is.
pub open spec fn list_models_tree(model_alias: Seq<char>) -> JsonTree {
    JsonTree::Object(
        Map::<Seq<char>, JsonTree>::empty()
            .insert("object"@, JsonTree::Str("list"@))
            .insert("data"@, JsonTree::Array(
                Seq::<JsonTree>::empty()
                    .push(JsonTree::Object(
                        Map::<Seq<char>, JsonTree>::empty()
                            .insert("id"@, JsonTree::Str(model_alias))
                            .insert("object"@, JsonTree::Str("model"@))
                            .insert("owned_by"@, JsonTree::Str("microsoft-365-copilot"@)),
                    )),
            )),
    )
}

/// The answer of `GET /v1/models`: the one model there is.
pub fn list_models_json(model_alias: &str) -> (json: Json)
    ensures
        json.tree() == list_models_tree(model_alias@),
{
    Json::object()
        .with("object", Json::text("list"))
        .with("data", Json::array()
            .item(Json::object()
                .with("id", Json::text(model_alias))
                .with("object", Json::text("model"))
                .with("owned_by", Json::text("microsoft-365-copilot"))))
}

/// The answer of `POST /v1/chat/completions`.
pub open spec fn chat_completion_tree(model_alias: Seq<char>, text: Seq<char>, id: Seq<char>, created: i64) -> JsonTree {
    JsonTree::Object(
        Map::<Seq<char>, JsonTree>::empty()
            .insert("id"@, JsonTree::Str(id))
            .insert("object"@, JsonTree::Str("chat.completion"@))
            .insert("created"@, JsonTree::Int(created as int))
            .insert("model"@, JsonTree::Str(model_alias))
            .insert("choices"@, JsonTree::Array(
                Seq::<JsonTree>::empty()
                    .push(JsonTree::Object(
                        Map::<Seq<char>, JsonTree>::empty()
                            .insert("index"@, JsonTree::Int(0))
                            .insert("message"@, JsonTree::Object(
                                Map::<Seq<char>, JsonTree>::empty()
                                    .insert("role"@, JsonTree::Str("assistant"@))
                                    .insert("content"@, JsonTree::Str(text)),
                            ))
                            .insert("finish_reason"@, JsonTree::Str("stop"@)),
                    )),
            )),
    )
}

/// The answer of `POST /v1/chat/completions`.
pub fn chat_completion_json(model_alias: &str, text: &str, id: &str, created: i64) -> (json: Json)
    ensures
        json.tree() == chat_completion_tree(model_alias@, text@, id@, created),
{
    Json::object()
        .with("id", Json::text(id))
        .with("object", Json::text("chat.completion"))
        .with("created", Json::integer(created))
        .with("model", Json::text(model_alias))
        .with("choices", Json::array()
            .item(Json::object()
                .with("index", Json::integer(0))
                .with("message", Json::object()
                    .with("role", Json::text("assistant"))
                    .with("content", Json::text(text)))
                .with("finish_reason", Json::text("stop"))))
}

/// The answer of `POST /v1/responses`.
pub open spec fn response_tree(model_alias: Seq<char>, text: Seq<char>, id: Seq<char>, item_id: Seq<char>, created: i64) -> JsonTree {
    JsonTree::Object(
        Map::<Seq<char>, JsonTree>::empty()
            .insert("id"@, JsonTree::Str(id))
            .insert("object"@, JsonTree::Str("response"@))
            .insert("created_at"@, JsonTree::Int(created as int))
            .insert("model"@, JsonTree::Str(model_alias))
            .insert("output"@, JsonTree::Array(
                Seq::<JsonTree>::empty()
                    .push(JsonTree::Object(
                        Map::<Seq<char>, JsonTree>::empty()
                            .insert("type"@, JsonTree::Str("message"@))
                            .insert("id"@, JsonTree::Str(item_id))
                            .insert("role"@, JsonTree::Str("assistant"@))
                            .insert("content"@, JsonTree::Array(
                                Seq::<JsonTree>::empty()
                                    .push(JsonTree::Object(
                                        Map::<Seq<char>, JsonTree>::empty()
                                            .insert("type"@, JsonTree::Str("output_text"@))
                                            .insert("text"@, JsonTree::Str(text)),
                                    )),
                            )),
                    )),
            ))
            .insert("usage"@, JsonTree::Object(
                Map::<Seq<char>, JsonTree>::empty()
                    .insert("input_tokens"@, JsonTree::Int(0))
                    .insert("output_tokens"@, JsonTree::Int(0))
                    .insert("total_tokens"@, JsonTree::Int(0)),
            )),
    )
}

/// The answer of `POST /v1/responses`.
pub fn response_json(model_alias: &str, text: &str, id: &str, item_id: &str, created: i64) -> (json: Json)
    ensures
        json.tree() == response_tree(model_alias@, text@, id@, item_id@, created),
{
    Json::object()
        .with("id", Json::text(id))
        .with("object", Json::text("response"))
        .with("created_at", Json::integer(created))
        .with("model", Json::text(model_alias))
        .with("output", Json::array()
            .item(Json::object()
                .with("type", Json::text("message"))
                .with("id", Json::text(item_id))
                .with("role", Json::text("assistant"))
                .with("content", Json::array()
                    .item(Json::object()
                        .with("type", Json::text("output_text"))
                        .with("text", Json::text(text))))))
        .with("usage", Json::object()
            .with("input_tokens", Json::integer(0))
            .with("output_tokens", Json::integer(0))
            .with("total_tokens", Json::integer(0)))
}

/// The answer of `POST /v1/messages`.
pub open spec fn message_tree(model_alias: Seq<char>, text: Seq<char>, id: Seq<char>) -> JsonTree {
    JsonTree::Object(
        Map::<Seq<char>, JsonTree>::empty()
            .insert("id"@, JsonTree::Str(id))
            .insert("type"@, JsonTree::Str("message"@))
            .insert("role"@, JsonTree::Str("assistant"@))
            .insert("model"@, JsonTree::Str(model_alias))
            .insert("content"@, JsonTree::Array(
                Seq::<JsonTree>::empty()
                    .push(JsonTree::Object(
                        Map::<Seq<char>, JsonTree>::empty()
                            .insert("type"@, JsonTree::Str("text"@))
                            .insert("text"@, JsonTree::Str(text)),
                    )),
            ))
            .insert("stop_reason"@, JsonTree::Str("end_turn"@))
            .insert("stop_sequence"@, JsonTree::Null)
            .insert("usage"@, JsonTree::Object(
                Map::<Seq<char>, JsonTree>::empty()
                    .insert("input_tokens"@, JsonTree::Int(0))
                    .insert("output_tokens"@, JsonTree::Int(0)),
            )),
    )
}

/// The answer of `POST /v1/messages`.
pub fn message_json(model_alias: &str, text: &str, id: &str) -> (json: Json)
    ensures
        json.tree() == message_tree(model_alias@, text@, id@),
{
    Json::object()
        .with("id", Json::text(id))
        .with("type", Json::text("message"))
        .with("role", Json::text("assistant"))
        .with("model", Json::text(model_alias))
        .with("content", Json::array()
            .item(Json::object()
                .with("type", Json::text("text"))
                .with("text", Json::text(text))))
        .with("stop_reason", Json::text("end_turn"))
        .with("stop_sequence", Json::Null)
        .with("usage", Json::object()
            .with("input_tokens", Json::integer(0))
            .with("output_tokens", Json::integer(0)))
}

// ---------------------------------------------------------------------------------------------
// Streamed answers
// ---------------------------------------------------------------------------------------------

/// What comes of the hub while an answer is streamed.
pub enum Upstream {
    /// A piece of the reply.
    Chunk(String),
    /// The hub failed, at once or midway.
    Failed(String),
    /// The reply is complete.
    Ended,
}

/// What comes of the hub while an answer is streamed.
pub enum UpstreamView {
    Chunk(Seq<char>),
    Failed(Seq<char>),
    Ended,
}

impl View for Upstream {
    type V = UpstreamView;

    open spec fn view(&self) -> UpstreamView {
        match self {
            Upstream::Chunk(piece) => UpstreamView::Chunk(piece@),
            Upstream::Failed(message) => UpstreamView::Failed(message@),
            Upstream::Ended => UpstreamView::Ended,
        }
    }
}

/// An event that holds a value.
pub open spec fn data_event(tree: JsonTree) -> Seq<char> {
    "data: "@ + json::printed(tree) + "\n\n"@
}

/// The event that ends a stream of chat completions.
pub open spec fn done_event() -> Seq<char> {
    "data: [DONE]\n\n"@
}

/// An event with a name that holds a value.
pub open spec fn named_event(event: Seq<char>, tree: JsonTree) -> Seq<char> {
    "event: "@ + event + "\ndata: "@ + json::printed(tree) + "\n\n"@
}

/// An event that holds a value.
pub fn sse_data(data: &Json) -> (event: String)
    ensures
        event@ == data_event(data.tree()),
{
    let mut event = "data: ".to_owned();
    event.append(print_json(data).as_str());
    event.append("\n\n");
    event
}

/// An event with a name that holds a value.
pub fn sse_event(event: &str, data: &Json) -> (s: String)
    ensures
        s@ == named_event(event@, data.tree()),
{
    let mut s = "event: ".to_owned();
    s.append(event);
    s.append("\ndata: ");
    s.append(print_json(data).as_str());
    s.append("\n\n");
    s
}

/// The chunk that names the role.
pub open spec fn completion_start_tree(model_alias: Seq<char>, id: Seq<char>, created: i64) -> JsonTree {
    JsonTree::Object(
        Map::<Seq<char>, JsonTree>::empty()
            .insert("id"@, JsonTree::Str(id))
            .insert("object"@, JsonTree::Str("chat.completion.chunk"@))
            .insert("created"@, JsonTree::Int(created as int))
            .insert("model"@, JsonTree::Str(model_alias))
            .insert("choices"@, JsonTree::Array(
                Seq::<JsonTree>::empty()
                    .push(JsonTree::Object(
                        Map::<Seq<char>, JsonTree>::empty()
                            .insert("index"@, JsonTree::Int(0))
                            .insert("delta"@, JsonTree::Object(
                                Map::<Seq<char>, JsonTree>::empty()
                                    .insert("role"@, JsonTree::Str("assistant"@)),
                            ))
                            .insert("finish_reason"@, JsonTree::Null),
                    )),
            )),
    )
}

/// The chunk that names the role.
fn completion_start_json(model_alias: &str, id: &str, created: i64) -> (json: Json)
    ensures
        json.tree() == completion_start_tree(model_alias@, id@, created),
{
    Json::object()
        .with("id", Json::text(id))
        .with("object", Json::text("chat.completion.chunk"))
        .with("created", Json::integer(created))
        .with("model", Json::text(model_alias))
        .with("choices", Json::array()
            .item(Json::object()
                .with("index", Json::integer(0))
                .with("delta", Json::object()
                    .with("role", Json::text("assistant")))
                .with("finish_reason", Json::Null)))
}

/// The chunk that holds a piece of the reply.
pub open spec fn completion_delta_tree(model_alias: Seq<char>, id: Seq<char>, created: i64, content: Seq<char>) -> JsonTree {
    JsonTree::Object(
        Map::<Seq<char>, JsonTree>::empty()
            .insert("id"@, JsonTree::Str(id))
            .insert("object"@, JsonTree::Str("chat.completion.chunk"@))
            .insert("created"@, JsonTree::Int(created as int))
            .insert("model"@, JsonTree::Str(model_alias))
            .insert("choices"@, JsonTree::Array(
                Seq::<JsonTree>::empty()
                    .push(JsonTree::Object(
                        Map::<Seq<char>, JsonTree>::empty()
                            .insert("index"@, JsonTree::Int(0))
                            .insert("delta"@, JsonTree::Object(
                                Map::<Seq<char>, JsonTree>::empty()
                                    .insert("content"@, JsonTree::Str(content)),
                            ))
                            .insert("finish_reason"@, JsonTree::Null),
                    )),
            )),
    )
}

/// The chunk that holds a piece of the reply.
fn completion_delta_json(model_alias: &str, id: &str, created: i64, content: &str) -> (json: Json)
    ensures
        json.tree() == completion_delta_tree(model_alias@, id@, created, content@),
{
    Json::object()
        .with("id", Json::text(id))
        .with("object", Json::text("chat.completion.chunk"))
        .with("created", Json::integer(created))
        .with("model", Json::text(model_alias))
        .with("choices", Json::array()
            .item(Json::object()
                .with("index", Json::integer(0))
                .with("delta", Json::object()
                    .with("content", Json::text(content)))
                .with("finish_reason", Json::Null)))
}

/// The chunk that ends the reply.
pub open spec fn completion_stop_tree(model_alias: Seq<char>, id: Seq<char>, created: i64) -> JsonTree {
    JsonTree::Object(
        Map::<Seq<char>, JsonTree>::empty()
            .insert("id"@, JsonTree::Str(id))
            .insert("object"@, JsonTree::Str("chat.completion.chunk"@))
            .insert("created"@, JsonTree::Int(created as int))
            .insert("model"@, JsonTree::Str(model_alias))
            .insert("choices"@, JsonTree::Array(
                Seq::<JsonTree>::empty()
                    .push(JsonTree::Object(
                        Map::<Seq<char>, JsonTree>::empty()
                            .insert("index"@, JsonTree::Int(0))
                            .insert("delta"@, JsonTree::Object(Map::empty()))
                            .insert("finish_reason"@, JsonTree::Str("stop"@)),
                    )),
            )),
    )
}

/// The chunk that ends the reply.
fn completion_stop_json(model_alias: &str, id: &str, created: i64) -> (json: Json)
    ensures
        json.tree() == completion_stop_tree(model_alias@, id@, created),
{
    Json::object()
        .with("id", Json::text(id))
        .with("object", Json::text("chat.completion.chunk"))
        .with("created", Json::integer(created))
        .with("model", Json::text(model_alias))
        .with("choices", Json::array()
            .item(Json::object()
                .with("index", Json::integer(0))
                .with("delta", Json::object())
                .with("finish_reason", Json::text("stop"))))
}

/// What stands in place of the rest where the hub fails.
pub open spec fn completion_error_tree(message: Seq<char>) -> JsonTree {
    JsonTree::Object(
        Map::<Seq<char>, JsonTree>::empty()
            .insert("error"@, JsonTree::Object(
                Map::<Seq<char>, JsonTree>::empty()
                    .insert("message"@, JsonTree::Str(message))
                    .insert("type"@, JsonTree::Str("upstream_error"@)),
            )),
    )
}

/// What stands in place of the rest where the hub fails.
fn completion_error_json(message: &str) -> (json: Json)
    ensures
        json.tree() == completion_error_tree(message@),
{
    Json::object()
        .with("error", Json::object()
            .with("message", Json::text(message))
            .with("type", Json::text("upstream_error")))
}

/// What a stream of chat completions carries along.
pub struct CompletionView {
    pub model_alias: Seq<char>,
    pub id: Seq<char>,
    pub created: i64,
    pub done: bool,
}

/// A stream of chat completions.
pub struct CompletionStream {
    pub model_alias: String,
    pub id: String,
    pub created: i64,
    pub done: bool,
}

impl View for CompletionStream {
    type V = CompletionView;

    open spec fn view(&self) -> CompletionView {
        CompletionView {
            model_alias: self.model_alias@,
            id: self.id@,
            created: self.created,
            done: self.done,
        }
    }
}

/// The events that open a stream of chat completions.
pub open spec fn completion_opening(s: CompletionView) -> Seq<Seq<char>> {
    seq![data_event(completion_start_tree(s.model_alias, s.id, s.created))]
}

/// The events that a stream of chat completions sends next.
pub open spec fn completion_events(s: CompletionView, up: UpstreamView) -> Seq<Seq<char>> {
    if s.done {
        Seq::empty()
    } else {
        match up {
            UpstreamView::Chunk(piece) => seq![
                data_event(completion_delta_tree(s.model_alias, s.id, s.created, piece)),
            ],
            UpstreamView::Failed(message) => seq![
                data_event(completion_error_tree(message)),
                done_event(),
            ],
            UpstreamView::Ended => seq![
                data_event(completion_stop_tree(s.model_alias, s.id, s.created)),
                done_event(),
            ],
        }
    }
}

/// A stream of chat completions afterwards.
pub open spec fn completion_after(s: CompletionView, up: UpstreamView) -> CompletionView {
    CompletionView { done: s.done || !(up is Chunk), ..s }
}

/// All that a stream of chat completions sends behind its opening.
pub open spec fn completion_run(s: CompletionView, ups: Seq<UpstreamView>) -> Seq<Seq<char>>
    decreases ups.len(),
{
    if ups.len() == 0 {
        Seq::empty()
    } else {
        completion_events(s, ups[0]) + completion_run(completion_after(s, ups[0]), ups.skip(1))
    }
}

impl CompletionStream {
    /// A stream that has sent nothing.
    pub fn new(model_alias: String, id: String, created: i64) -> (s: Self)
        ensures
            s@ == (CompletionView { model_alias: model_alias@, id: id@, created, done: false }),
    {
        CompletionStream { model_alias, id, created, done: false }
    }

    /// The events that open the stream.
    pub fn start(&self) -> (events: Vec<String>)
        ensures
            text::views(events@) == completion_opening(self@),
    {
        let first = completion_start_json(self.model_alias.as_str(), self.id.as_str(), self.created);
        let mut events: Vec<String> = Vec::new();
        events.push(sse_data(&first));
        assert(text::views(events@) =~= completion_opening(self@));
        events
    }

    /// The events to send next; none once the stream is done.
    pub fn next(&mut self, up: &Upstream) -> (events: Vec<String>)
        ensures
            text::views(events@) == completion_events(old(self)@, up@),
            final(self)@ == completion_after(old(self)@, up@),
    {
        let ghost before = self@;
        let mut events: Vec<String> = Vec::new();
        if !self.done {
            match up {
                Upstream::Chunk(piece) => {
                    let chunk = completion_delta_json(
                        self.model_alias.as_str(),
                        self.id.as_str(),
                        self.created,
                        piece.as_str(),
                    );
                    events.push(sse_data(&chunk));
                },
                Upstream::Failed(message) => {
                    events.push(sse_data(&completion_error_json(message.as_str())));
                    events.push("data: [DONE]\n\n".to_owned());
                    self.done = true;
                },
                Upstream::Ended => {
                    let stop = completion_stop_json(
                        self.model_alias.as_str(),
                        self.id.as_str(),
                        self.created,
                    );
                    events.push(sse_data(&stop));
                    events.push("data: [DONE]\n\n".to_owned());
                    self.done = true;
                },
            }
        }
        assert(text::views(events@) =~= completion_events(before, up@));
        events
    }
}

/// The response has begun.
pub open spec fn response_created_tree(model_alias: Seq<char>, id: Seq<char>, created: i64) -> JsonTree {
    JsonTree::Object(
        Map::<Seq<char>, JsonTree>::empty()
            .insert("type"@, JsonTree::Str("response.created"@))
            .insert("response"@, JsonTree::Object(
                Map::<Seq<char>, JsonTree>::empty()
                    .insert("id"@, JsonTree::Str(id))
                    .insert("object"@, JsonTree::Str("response"@))
                    .insert("created_at"@, JsonTree::Int(created as int))
                    .insert("model"@, JsonTree::Str(model_alias))
                    .insert("status"@, JsonTree::Str("in_progress"@))
                    .insert("output"@, JsonTree::Array(Seq::empty())),
            )),
    )
}

/// The response has begun.
fn response_created_json(model_alias: &str, id: &str, created: i64) -> (json: Json)
    ensures
        json.tree() == response_created_tree(model_alias@, id@, created),
{
    Json::object()
        .with("type", Json::text("response.created"))
        .with("response", Json::object()
            .with("id", Json::text(id))
            .with("object", Json::text("response"))
            .with("created_at", Json::integer(created))
            .with("model", Json::text(model_alias))
            .with("status", Json::text("in_progress"))
            .with("output", Json::array()))
}

/// The message that will hold the reply has begun.
pub open spec fn item_added_tree(item_id: Seq<char>) -> JsonTree {
    JsonTree::Object(
        Map::<Seq<char>, JsonTree>::empty()
            .insert("type"@, JsonTree::Str("response.output_item.added"@))
            .insert("output_index"@, JsonTree::Int(0))
            .insert("item"@, JsonTree::Object(
                Map::<Seq<char>, JsonTree>::empty()
                    .insert("id"@, JsonTree::Str(item_id))
                    .insert("type"@, JsonTree::Str("message"@))
                    .insert("role"@, JsonTree::Str("assistant"@))
                    .insert("content"@, JsonTree::Array(Seq::empty())),
            )),
    )
}

/// The message that will hold the reply has begun.
fn item_added_json(item_id: &str) -> (json: Json)
    ensures
        json.tree() == item_added_tree(item_id@),
{
    Json::object()
        .with("type", Json::text("response.output_item.added"))
        .with("output_index", Json::integer(0))
        .with("item", Json::object()
            .with("id", Json::text(item_id))
            .with("type", Json::text("message"))
            .with("role", Json::text("assistant"))
            .with("content", Json::array()))
}

/// The text of the message has begun.
pub open spec fn part_added_tree(item_id: Seq<char>) -> JsonTree {
    JsonTree::Object(
        Map::<Seq<char>, JsonTree>::empty()
            .insert("type"@, JsonTree::Str("response.content_part.added"@))
            .insert("item_id"@, JsonTree::Str(item_id))
            .insert("output_index"@, JsonTree::Int(0))
            .insert("content_index"@, JsonTree::Int(0))
            .insert("part"@, JsonTree::Object(
                Map::<Seq<char>, JsonTree>::empty()
                    .insert("type"@, JsonTree::Str("output_text"@))
                    .insert("text"@, JsonTree::Str(""@)),
            )),
    )
}

/// The text of the message has begun.
fn part_added_json(item_id: &str) -> (json: Json)
    ensures
        json.tree() == part_added_tree(item_id@),
{
    Json::object()
        .with("type", Json::text("response.content_part.added"))
        .with("item_id", Json::text(item_id))
        .with("output_index", Json::integer(0))
        .with("content_index", Json::integer(0))
        .with("part", Json::object()
            .with("type", Json::text("output_text"))
            .with("text", Json::text("")))
}

/// A piece of the text.
pub open spec fn text_delta_tree(item_id: Seq<char>, delta: Seq<char>) -> JsonTree {
    JsonTree::Object(
        Map::<Seq<char>, JsonTree>::empty()
            .insert("type"@, JsonTree::Str("response.output_text.delta"@))
            .insert("item_id"@, JsonTree::Str(item_id))
            .insert("output_index"@, JsonTree::Int(0))
            .insert("content_index"@, JsonTree::Int(0))
            .insert("delta"@, JsonTree::Str(delta)),
    )
}

/// A piece of the text.
fn text_delta_json(item_id: &str, delta: &str) -> (json: Json)
    ensures
        json.tree() == text_delta_tree(item_id@, delta@),
{
    Json::object()
        .with("type", Json::text("response.output_text.delta"))
        .with("item_id", Json::text(item_id))
        .with("output_index", Json::integer(0))
        .with("content_index", Json::integer(0))
        .with("delta", Json::text(delta))
}

/// The text is complete.
pub open spec fn text_done_tree(item_id: Seq<char>, text: Seq<char>) -> JsonTree {
    JsonTree::Object(
        Map::<Seq<char>, JsonTree>::empty()
            .insert("type"@, JsonTree::Str("response.output_text.done"@))
            .insert("item_id"@, JsonTree::Str(item_id))
            .insert("output_index"@, JsonTree::Int(0))
            .insert("content_index"@, JsonTree::Int(0))
            .insert("text"@, JsonTree::Str(text)),
    )
}

/// The text is complete.
fn text_done_json(item_id: &str, text: &str) -> (json: Json)
    ensures
        json.tree() == text_done_tree(item_id@, text@),
{
    Json::object()
        .with("type", Json::text("response.output_text.done"))
        .with("item_id", Json::text(item_id))
        .with("output_index", Json::integer(0))
        .with("content_index", Json::integer(0))
        .with("text", Json::text(text))
}

/// The response is complete.
pub open spec fn response_completed_tree(model_alias: Seq<char>, text: Seq<char>, id: Seq<char>, item_id: Seq<char>, created: i64) -> JsonTree {
    JsonTree::Object(
        Map::<Seq<char>, JsonTree>::empty()
            .insert("type"@, JsonTree::Str("response.completed"@))
            .insert("response"@, JsonTree::Object(
                Map::<Seq<char>, JsonTree>::empty()
                    .insert("id"@, JsonTree::Str(id))
                    .insert("object"@, JsonTree::Str("response"@))
                    .insert("created_at"@, JsonTree::Int(created as int))
                    .insert("model"@, JsonTree::Str(model_alias))
                    .insert("status"@, JsonTree::Str("completed"@))
                    .insert("output"@, JsonTree::Array(
                        Seq::<JsonTree>::empty()
                            .push(JsonTree::Object(
                                Map::<Seq<char>, JsonTree>::empty()
                                    .insert("id"@, JsonTree::Str(item_id))
                                    .insert("type"@, JsonTree::Str("message"@))
                                    .insert("role"@, JsonTree::Str("assistant"@))
                                    .insert("content"@, JsonTree::Array(
                                        Seq::<JsonTree>::empty()
                                            .push(JsonTree::Object(
                                                Map::<Seq<char>, JsonTree>::empty()
                                                    .insert("type"@, JsonTree::Str("output_text"@))
                                                    .insert("text"@, JsonTree::Str(text)),
                                            )),
                                    )),
                            )),
                    ))
                    .insert("usage"@, JsonTree::Object(
                        Map::<Seq<char>, JsonTree>::empty()
                            .insert("input_tokens"@, JsonTree::Int(0))
                            .insert("output_tokens"@, JsonTree::Int(0))
                            .insert("total_tokens"@, JsonTree::Int(0)),
                    )),
            )),
    )
}

/// The response is complete.
fn response_completed_json(model_alias: &str, text: &str, id: &str, item_id: &str, created: i64) -> (json: Json)
    ensures
        json.tree() == response_completed_tree(model_alias@, text@, id@, item_id@, created),
{
    Json::object()
        .with("type", Json::text("response.completed"))
        .with("response", Json::object()
            .with("id", Json::text(id))
            .with("object", Json::text("response"))
            .with("created_at", Json::integer(created))
            .with("model", Json::text(model_alias))
            .with("status", Json::text("completed"))
            .with("output", Json::array()
                .item(Json::object()
                    .with("id", Json::text(item_id))
                    .with("type", Json::text("message"))
                    .with("role", Json::text("assistant"))
                    .with("content", Json::array()
                        .item(Json::object()
                            .with("type", Json::text("output_text"))
                            .with("text", Json::text(text))))))
            .with("usage", Json::object()
                .with("input_tokens", Json::integer(0))
                .with("output_tokens", Json::integer(0))
                .with("total_tokens", Json::integer(0))))
}

/// What stands in place of the rest where the hub fails.
pub open spec fn response_error_tree(message: Seq<char>) -> JsonTree {
    JsonTree::Object(
        Map::<Seq<char>, JsonTree>::empty()
            .insert("type"@, JsonTree::Str("error"@))
            .insert("error"@, JsonTree::Object(
                Map::<Seq<char>, JsonTree>::empty()
                    .insert("message"@, JsonTree::Str(message))
                    .insert("type"@, JsonTree::Str("upstream_error"@)),
            )),
    )
}

/// What stands in place of the rest where the hub fails.
fn response_error_json(message: &str) -> (json: Json)
    ensures
        json.tree() == response_error_tree(message@),
{
    Json::object()
        .with("type", Json::text("error"))
        .with("error", Json::object()
            .with("message", Json::text(message))
            .with("type", Json::text("upstream_error")))
}

/// What a stream of a response carries along.
pub struct ResponseView {
    pub model_alias: Seq<char>,
    pub id: Seq<char>,
    pub item_id: Seq<char>,
    pub created: i64,
    /// The pieces that were sent, one after the other.
    pub full_text: Seq<char>,
    pub done: bool,
}

/// A stream of a response.
pub struct ResponseStream {
    pub model_alias: String,
    pub id: String,
    pub item_id: String,
    pub created: i64,
    pub full_text: String,
    pub done: bool,
}

impl View for ResponseStream {
    type V = ResponseView;

    open spec fn view(&self) -> ResponseView {
        ResponseView {
            model_alias: self.model_alias@,
            id: self.id@,
            item_id: self.item_id@,
            created: self.created,
            full_text: self.full_text@,
            done: self.done,
        }
    }
}

/// The events that open a stream of a response.
pub open spec fn response_opening(s: ResponseView) -> Seq<Seq<char>> {
    seq![
        data_event(response_created_tree(s.model_alias, s.id, s.created)),
        data_event(item_added_tree(s.item_id)),
        data_event(part_added_tree(s.item_id)),
    ]
}

/// The events that a stream of a response sends next.
pub open spec fn response_events(s: ResponseView, up: UpstreamView) -> Seq<Seq<char>> {
    if s.done {
        Seq::empty()
    } else {
        match up {
            UpstreamView::Chunk(piece) => seq![data_event(text_delta_tree(s.item_id, piece))],
            UpstreamView::Failed(message) => seq![data_event(response_error_tree(message))],
            UpstreamView::Ended => seq![
                data_event(text_done_tree(s.item_id, s.full_text)),
                data_event(
                    response_completed_tree(
                        s.model_alias,
                        s.full_text,
                        s.id,
                        s.item_id,
                        s.created,
                    ),
                ),
            ],
        }
    }
}

/// A stream of a response afterwards.
pub open spec fn response_after(s: ResponseView, up: UpstreamView) -> ResponseView {
    match up {
        UpstreamView::Chunk(piece) if !s.done => ResponseView {
            full_text: s.full_text + piece,
            ..s
        },
        UpstreamView::Chunk(_) => s,
        _ => ResponseView { done: true, ..s },
    }
}

/// A stream of a response after several steps.
pub open spec fn response_after_all(s: ResponseView, ups: Seq<UpstreamView>) -> ResponseView
    decreases ups.len(),
{
    if ups.len() == 0 {
        s
    } else {
        response_after(response_after_all(s, ups.drop_last()), ups.last())
    }
}

impl ResponseStream {
    /// A stream that has sent nothing.
    pub fn new(model_alias: String, id: String, item_id: String, created: i64) -> (s: Self)
        ensures
            s@ == (ResponseView {
                model_alias: model_alias@,
                id: id@,
                item_id: item_id@,
                created,
                full_text: Seq::empty(),
                done: false,
            }),
    {
        ResponseStream {
            model_alias,
            id,
            item_id,
            created,
            full_text: String::new(),
            done: false,
        }
    }

    /// The events that open the stream.
    pub fn start(&self) -> (events: Vec<String>)
        ensures
            text::views(events@) == response_opening(self@),
    {
        let item_id = self.item_id.as_str();
        let created = response_created_json(
            self.model_alias.as_str(),
            self.id.as_str(),
            self.created,
        );
        let mut events: Vec<String> = Vec::new();
        events.push(sse_data(&created));
        events.push(sse_data(&item_added_json(item_id)));
        events.push(sse_data(&part_added_json(item_id)));
        assert(text::views(events@) =~= response_opening(self@));
        events
    }

    /// The events to send next; none once the stream is done.
    pub fn next(&mut self, up: &Upstream) -> (events: Vec<String>)
        ensures
            text::views(events@) == response_events(old(self)@, up@),
            final(self)@ == response_after(old(self)@, up@),
    {
        let ghost before = self@;
        let mut events: Vec<String> = Vec::new();
        if !self.done {
            match up {
                Upstream::Chunk(piece) => {
                    self.full_text.append(piece.as_str());
                    events.push(
                        sse_data(&text_delta_json(self.item_id.as_str(), piece.as_str())),
                    );
                },
                Upstream::Failed(message) => {
                    events.push(sse_data(&response_error_json(message.as_str())));
                    self.done = true;
                },
                Upstream::Ended => {
                    let done = text_done_json(self.item_id.as_str(), self.full_text.as_str());
                    let completed = response_completed_json(
                        self.model_alias.as_str(),
                        self.full_text.as_str(),
                        self.id.as_str(),
                        self.item_id.as_str(),
                        self.created,
                    );
                    events.push(sse_data(&done));
                    events.push(sse_data(&completed));
                    self.done = true;
                },
            }
        }
        assert(text::views(events@) =~= response_events(before, up@));
        events
    }
}

/// The message has begun.
pub open spec fn message_start_tree(model_alias: Seq<char>, id: Seq<char>) -> JsonTree {
    JsonTree::Object(
        Map::<Seq<char>, JsonTree>::empty()
            .insert("type"@, JsonTree::Str("message_start"@))
            .insert("message"@, JsonTree::Object(
                Map::<Seq<char>, JsonTree>::empty()
                    .insert("id"@, JsonTree::Str(id))
                    .insert("type"@, JsonTree::Str("message"@))
                    .insert("role"@, JsonTree::Str("assistant"@))
                    .insert("content"@, JsonTree::Array(Seq::empty()))
                    .insert("model"@, JsonTree::Str(model_alias))
                    .insert("stop_reason"@, JsonTree::Null)
                    .insert("stop_sequence"@, JsonTree::Null)
                    .insert("usage"@, JsonTree::Object(
                        Map::<Seq<char>, JsonTree>::empty()
                            .insert("input_tokens"@, JsonTree::Int(0))
                            .insert("output_tokens"@, JsonTree::Int(0)),
                    )),
            )),
    )
}

/// The message has begun.
fn message_start_json(model_alias: &str, id: &str) -> (json: Json)
    ensures
        json.tree() == message_start_tree(model_alias@, id@),
{
    Json::object()
        .with("type", Json::text("message_start"))
        .with("message", Json::object()
            .with("id", Json::text(id))
            .with("type", Json::text("message"))
            .with("role", Json::text("assistant"))
            .with("content", Json::array())
            .with("model", Json::text(model_alias))
            .with("stop_reason", Json::Null)
            .with("stop_sequence", Json::Null)
            .with("usage", Json::object()
                .with("input_tokens", Json::integer(0))
                .with("output_tokens", Json::integer(0))))
}

/// The text of the message has begun.
pub open spec fn block_start_tree() -> JsonTree {
    JsonTree::Object(
        Map::<Seq<char>, JsonTree>::empty()
            .insert("type"@, JsonTree::Str("content_block_start"@))
            .insert("index"@, JsonTree::Int(0))
            .insert("content_block"@, JsonTree::Object(
                Map::<Seq<char>, JsonTree>::empty()
                    .insert("type"@, JsonTree::Str("text"@))
                    .insert("text"@, JsonTree::Str(""@)),
            )),
    )
}

/// The text of the message has begun.
fn block_start_json() -> (json: Json)
    ensures
        json.tree() == block_start_tree(),
{
    Json::object()
        .with("type", Json::text("content_block_start"))
        .with("index", Json::integer(0))
        .with("content_block", Json::object()
            .with("type", Json::text("text"))
            .with("text", Json::text("")))
}

/// A sign of life.
pub open spec fn ping_tree() -> JsonTree {
    JsonTree::Object(
        Map::<Seq<char>, JsonTree>::empty()
            .insert("type"@, JsonTree::Str("ping"@)),
    )
}

/// A sign of life.
fn ping_json() -> (json: Json)
    ensures
        json.tree() == ping_tree(),
{
    Json::object()
        .with("type", Json::text("ping"))
}

/// A piece of the text.
pub open spec fn block_delta_tree(text: Seq<char>) -> JsonTree {
    JsonTree::Object(
        Map::<Seq<char>, JsonTree>::empty()
            .insert("type"@, JsonTree::Str("content_block_delta"@))
            .insert("index"@, JsonTree::Int(0))
            .insert("delta"@, JsonTree::Object(
                Map::<Seq<char>, JsonTree>::empty()
                    .insert("type"@, JsonTree::Str("text_delta"@))
                    .insert("text"@, JsonTree::Str(text)),
            )),
    )
}

/// A piece of the text.
fn block_delta_json(text: &str) -> (json: Json)
    ensures
        json.tree() == block_delta_tree(text@),
{
    Json::object()
        .with("type", Json::text("content_block_delta"))
        .with("index", Json::integer(0))
        .with("delta", Json::object()
            .with("type", Json::text("text_delta"))
            .with("text", Json::text(text)))
}

/// The text is complete.
pub open spec fn block_stop_tree() -> JsonTree {
    JsonTree::Object(
        Map::<Seq<char>, JsonTree>::empty()
            .insert("type"@, JsonTree::Str("content_block_stop"@))
            .insert("index"@, JsonTree::Int(0)),
    )
}

/// The text is complete.
fn block_stop_json() -> (json: Json)
    ensures
        json.tree() == block_stop_tree(),
{
    Json::object()
        .with("type", Json::text("content_block_stop"))
        .with("index", Json::integer(0))
}

/// Why the message ends.
pub open spec fn message_delta_tree() -> JsonTree {
    JsonTree::Object(
        Map::<Seq<char>, JsonTree>::empty()
            .insert("type"@, JsonTree::Str("message_delta"@))
            .insert("delta"@, JsonTree::Object(
                Map::<Seq<char>, JsonTree>::empty()
                    .insert("stop_reason"@, JsonTree::Str("end_turn"@))
                    .insert("stop_sequence"@, JsonTree::Null),
            ))
            .insert("usage"@, JsonTree::Object(
                Map::<Seq<char>, JsonTree>::empty()
                    .insert("output_tokens"@, JsonTree::Int(0)),
            )),
    )
}

/// Why the message ends.
fn message_delta_json() -> (json: Json)
    ensures
        json.tree() == message_delta_tree(),
{
    Json::object()
        .with("type", Json::text("message_delta"))
        .with("delta", Json::object()
            .with("stop_reason", Json::text("end_turn"))
            .with("stop_sequence", Json::Null))
        .with("usage", Json::object()
            .with("output_tokens", Json::integer(0)))
}

/// The message is complete.
pub open spec fn message_stop_tree() -> JsonTree {
    JsonTree::Object(
        Map::<Seq<char>, JsonTree>::empty()
            .insert("type"@, JsonTree::Str("message_stop"@)),
    )
}

/// The message is complete.
fn message_stop_json() -> (json: Json)
    ensures
        json.tree() == message_stop_tree(),
{
    Json::object()
        .with("type", Json::text("message_stop"))
}

/// What stands in place of the rest where the hub fails.
pub open spec fn message_error_tree(message: Seq<char>) -> JsonTree {
    JsonTree::Object(
        Map::<Seq<char>, JsonTree>::empty()
            .insert("type"@, JsonTree::Str("error"@))
            .insert("error"@, JsonTree::Object(
                Map::<Seq<char>, JsonTree>::empty()
                    .insert("type"@, JsonTree::Str("upstream_error"@))
                    .insert("message"@, JsonTree::Str(message)),
            )),
    )
}

/// What stands in place of the rest where the hub fails.
fn message_error_json(message: &str) -> (json: Json)
    ensures
        json.tree() == message_error_tree(message@),
{
    Json::object()
        .with("type", Json::text("error"))
        .with("error", Json::object()
            .with("type", Json::text("upstream_error"))
            .with("message", Json::text(message)))
}

/// What a stream of a message carries along.
pub struct MessageView {
    pub model_alias: Seq<char>,
    pub id: Seq<char>,
    pub done: bool,
}

/// A stream of a message.
pub struct MessageStream {
    pub model_alias: String,
    pub id: String,
    pub done: bool,
}

impl View for MessageStream {
    type V = MessageView;

    open spec fn view(&self) -> MessageView {
        MessageView { model_alias: self.model_alias@, id: self.id@, done: self.done }
    }
}

/// The events that open a stream of a message.
pub open spec fn message_opening(s: MessageView) -> Seq<Seq<char>> {
    seq![
        named_event("message_start"@, message_start_tree(s.model_alias, s.id)),
        named_event("content_block_start"@, block_start_tree()),
        named_event("ping"@, ping_tree()),
    ]
}

/// The events that a stream of a message sends next.
pub open spec fn message_events(s: MessageView, up: UpstreamView) -> Seq<Seq<char>> {
    if s.done {
        Seq::empty()
    } else {
        match up {
            UpstreamView::Chunk(piece) => seq![
                named_event("content_block_delta"@, block_delta_tree(piece)),
            ],
            UpstreamView::Failed(message) => seq![
                named_event("error"@, message_error_tree(message)),
            ],
            UpstreamView::Ended => seq![
                named_event("content_block_stop"@, block_stop_tree()),
                named_event("message_delta"@, message_delta_tree()),
                named_event("message_stop"@, message_stop_tree()),
            ],
        }
    }
}

/// A stream of a message afterwards.
pub open spec fn message_after(s: MessageView, up: UpstreamView) -> MessageView {
    MessageView { done: s.done || !(up is Chunk), ..s }
}

impl MessageStream {
    /// A stream that has sent nothing.
    pub fn new(model_alias: String, id: String) -> (s: Self)
        ensures
            s@ == (MessageView { model_alias: model_alias@, id: id@, done: false }),
    {
        MessageStream { model_alias, id, done: false }
    }

    /// The events that open the stream.
    pub fn start(&self) -> (events: Vec<String>)
        ensures
            text::views(events@) == message_opening(self@),
    {
        let start = message_start_json(self.model_alias.as_str(), self.id.as_str());
        let mut events: Vec<String> = Vec::new();
        events.push(sse_event("message_start", &start));
        events.push(sse_event("content_block_start", &block_start_json()));
        events.push(sse_event("ping", &ping_json()));
        assert(text::views(events@) =~= message_opening(self@));
        events
    }

    /// The events to send next; none once the stream is done.
    pub fn next(&mut self, up: &Upstream) -> (events: Vec<String>)
        ensures
            text::views(events@) == message_events(old(self)@, up@),
            final(self)@ == message_after(old(self)@, up@),
    {
        let ghost before = self@;
        let mut events: Vec<String> = Vec::new();
        if !self.done {
            match up {
                Upstream::Chunk(piece) => {
                    events.push(
                        sse_event("content_block_delta", &block_delta_json(piece.as_str())),
                    );
                },
                Upstream::Failed(message) => {
                    events.push(sse_event("error", &message_error_json(message.as_str())));
                    self.done = true;
                },
                Upstream::Ended => {
                    events.push(sse_event("content_block_stop", &block_stop_json()));
                    events.push(sse_event("message_delta", &message_delta_json()));
                    events.push(sse_event("message_stop", &message_stop_json()));
                    self.done = true;
                },
            }
        }
        assert(text::views(events@) =~= message_events(before, up@));
        events
    }
}

// ---------------------------------------------------------------------------------------------
// Laws
// ---------------------------------------------------------------------------------------------

/// A header that names a conversation decides alone which one it is.
pub proof fn law_header_decides(
    header: Seq<char>,
    model: Seq<char>,
    other_model: Seq<char>,
    fallback: Option<Seq<char>>,
    other_fallback: Option<Seq<char>>,
)
    requires
        text::trimmed(header).len() > 0,
    ensures
        session_key_of(Some(header), model, fallback) is Some,
        session_key_of(Some(header), model, fallback) == session_key_of(
            Some(header),
            other_model,
            other_fallback,
        ),
{
}

/// A conversation that a header names is never one that a model's name asks for.
pub proof fn law_header_and_model_conversations_differ(
    header: Seq<char>,
    model: Seq<char>,
    fallback: Option<Seq<char>>,
    other_model: Seq<char>,
    other_fallback: Option<Seq<char>>,
)
    requires
        text::trimmed(header).len() > 0,
    ensures
        session_key_of(Some(header), model, fallback) != session_key_of(
            None,
            other_model,
            other_fallback,
        ),
{
    reveal_strlit("header:");
    reveal_strlit("model:");
    let by_header = "header:"@ + text::trimmed(header);
    assert(by_header[0] == 'h');
    if let Some(by_model) = session_key_of(None, other_model, other_fallback) {
        assert(by_model[0] == 'm');
    }
}

/// Without a header and a model that asks for it, no conversation lasts.
pub proof fn law_plain_requests_keep_nothing(model: Seq<char>, fallback: Option<Seq<char>>)
    requires
        !text::finishes_with(model, PERSIST_MODEL_SUFFIX@),
    ensures
        session_key_of(None, model, fallback) is None,
{
}

/// The steps of a stream: pieces of the reply, then its end.
pub open spec fn pieces_then(pieces: Seq<Seq<char>>, end: UpstreamView) -> Seq<UpstreamView> {
    Seq::new(pieces.len(), |i: int| UpstreamView::Chunk(pieces[i])).push(end)
}

/// A stream of chat completions sends one chunk for each piece, then what ends it, with `[DONE]`
/// last, whether the hub failed or not; and nothing behind that.
pub proof fn law_completion_stream_ends_with_done(
    s: CompletionView,
    pieces: Seq<Seq<char>>,
    end: UpstreamView,
    more: Seq<UpstreamView>,
)
    requires
        !s.done,
        !(end is Chunk),
    ensures
        completion_run(s, pieces_then(pieces, end) + more) == Seq::new(
            pieces.len(),
            |i: int|
                data_event(completion_delta_tree(s.model_alias, s.id, s.created, pieces[i])),
        ) + completion_events(s, end),
        completion_events(s, end).last() == done_event(),
    decreases pieces.len(),
{
    let ups = pieces_then(pieces, end) + more;
    let deltas = Seq::new(
        pieces.len(),
        |i: int| data_event(completion_delta_tree(s.model_alias, s.id, s.created, pieces[i])),
    );
    if pieces.len() == 0 {
        assert(ups[0] == end);
        assert(ups.skip(1) =~= more);
        lemma_completion_silent(completion_after(s, end), more);
        assert(completion_run(s, ups) =~= deltas + completion_events(s, end));
    } else {
        let rest = pieces.skip(1);
        let rest_deltas = Seq::new(
            rest.len(),
            |i: int| data_event(completion_delta_tree(s.model_alias, s.id, s.created, rest[i])),
        );
        assert(ups[0] == UpstreamView::Chunk(pieces[0]));
        assert(ups.skip(1) =~= pieces_then(rest, end) + more);
        assert(completion_after(s, ups[0]) == s);
        law_completion_stream_ends_with_done(s, rest, end, more);
        assert(deltas =~= seq![deltas[0]] + rest_deltas);
        assert(completion_run(s, ups) =~= deltas + completion_events(s, end));
    }
}

/// A stream of chat completions that is done sends nothing.
proof fn lemma_completion_silent(s: CompletionView, ups: Seq<UpstreamView>)
    requires
        s.done,
    ensures
        completion_run(s, ups) == Seq::<Seq<char>>::empty(),
    decreases ups.len(),
{
    if ups.len() > 0 {
        lemma_completion_silent(completion_after(s, ups[0]), ups.skip(1));
    }
}

/// Once a stream of any kind is done, it sends nothing and stays done.
pub proof fn law_done_streams_are_silent(
    completion: CompletionView,
    response: ResponseView,
    message: MessageView,
    up: UpstreamView,
)
    ensures
        completion.done ==> completion_events(completion, up).len() == 0 && completion_after(
            completion,
            up,
        ).done,
        response.done ==> response_events(response, up).len() == 0 && response_after(
            response,
            up,
        ).done,
        message.done ==> message_events(message, up).len() == 0 && message_after(message, up).done,
{
}

/// The complete text of a streamed response is the pieces that were sent, one after the other.
pub proof fn law_response_text_is_its_pieces(s: ResponseView, pieces: Seq<Seq<char>>)
    requires
        !s.done,
    ensures
        response_after_all(s, Seq::new(pieces.len(), |i: int| UpstreamView::Chunk(pieces[i]))) == (
        ResponseView { full_text: s.full_text + text::joined(pieces, Seq::empty()), ..s }),
    decreases pieces.len(),
{
    let ups = Seq::new(pieces.len(), |i: int| UpstreamView::Chunk(pieces[i]));
    if pieces.len() == 0 {
        assert(s.full_text + Seq::<char>::empty() =~= s.full_text);
    } else {
        let front = pieces.drop_last();
        law_response_text_is_its_pieces(s, front);
        assert(ups.drop_last() =~= Seq::new(front.len(), |i: int| UpstreamView::Chunk(front[i])));
        text::lemma_joined_push(front, pieces.last(), Seq::empty());
        assert(front.push(pieces.last()) =~= pieces);
        assert((s.full_text + text::joined(front, Seq::empty())) + pieces.last() =~= s.full_text
            + text::joined(pieces, Seq::empty()));
    }
}

/// The names of the members that answers have differ.
proof fn lemma_names()
    ensures
        "id"@.len() == 2,
        "object"@.len() == 6,
        "created"@.len() == 7,
        "created_at"@.len() == 10,
        "model"@.len() == 5,
        "choices"@.len() == 7,
        "index"@.len() == 5,
        "delta"@.len() == 5,
        "role"@.len() == 4,
        "content"@.len() == 7,
        "finish_reason"@.len() == 13,
        "message"@.len() == 7,
        "error"@.len() == 5,
        "type"@.len() == 4,
        "response"@.len() == 8,
        "status"@.len() == 6,
        "output"@.len() == 6,
        "usage"@.len() == 5,
        "item"@.len() == 4,
        "item_id"@.len() == 7,
        "output_index"@.len() == 12,
        "content_index"@.len() == 13,
        "part"@.len() == 4,
        "text"@.len() == 4,
        "content_block"@.len() == 13,
        "stop_reason"@.len() == 11,
        "stop_sequence"@.len() == 13,
        "input_tokens"@.len() == 12,
        "output_tokens"@.len() == 13,
        "total_tokens"@.len() == 12,
        "data"@.len() == 4,
        "owned_by"@.len() == 8,
        "token"@.len() == 5,
        "detail"@.len() == 6,
        "object"@ != "status"@,
        "object"@ != "output"@,
        "object"@ != "detail"@,
        "created"@ != "choices"@,
        "created"@ != "content"@,
        "created"@ != "message"@,
        "created"@ != "item_id"@,
        "model"@ != "index"@,
        "model"@ != "delta"@,
        "model"@ != "error"@,
        "model"@ != "usage"@,
        "model"@ != "token"@,
        "choices"@ != "content"@,
        "choices"@ != "message"@,
        "choices"@ != "item_id"@,
        "index"@ != "delta"@,
        "index"@ != "error"@,
        "index"@ != "usage"@,
        "index"@ != "token"@,
        "delta"@ != "error"@,
        "delta"@ != "usage"@,
        "delta"@ != "token"@,
        "role"@ != "type"@,
        "role"@ != "item"@,
        "role"@ != "part"@,
        "role"@ != "text"@,
        "role"@ != "data"@,
        "content"@ != "message"@,
        "content"@ != "item_id"@,
        "finish_reason"@ != "content_index"@,
        "finish_reason"@ != "content_block"@,
        "finish_reason"@ != "stop_sequence"@,
        "finish_reason"@ != "output_tokens"@,
        "message"@ != "item_id"@,
        "error"@ != "usage"@,
        "error"@ != "token"@,
        "type"@ != "item"@,
        "type"@ != "part"@,
        "type"@ != "text"@,
        "type"@ != "data"@,
        "response"@ != "owned_by"@,
        "status"@ != "output"@,
        "status"@ != "detail"@,
        "output"@ != "detail"@,
        "usage"@ != "token"@,
        "item"@ != "part"@,
        "item"@ != "text"@,
        "item"@ != "data"@,
        "output_index"@ != "input_tokens"@,
        "output_index"@ != "total_tokens"@,
        "content_index"@ != "content_block"@,
        "content_index"@ != "stop_sequence"@,
        "content_index"@ != "output_tokens"@,
        "part"@ != "text"@,
        "part"@ != "data"@,
        "text"@ != "data"@,
        "content_block"@ != "stop_sequence"@,
        "content_block"@ != "output_tokens"@,
        "stop_sequence"@ != "output_tokens"@,
        "input_tokens"@ != "total_tokens"@,
{
    reveal_strlit("id");
    reveal_strlit("object");
    reveal_strlit("created");
    reveal_strlit("created_at");
    reveal_strlit("model");
    reveal_strlit("choices");
    reveal_strlit("index");
    reveal_strlit("delta");
    reveal_strlit("role");
    reveal_strlit("content");
    reveal_strlit("finish_reason");
    reveal_strlit("message");
    reveal_strlit("error");
    reveal_strlit("type");
    reveal_strlit("response");
    reveal_strlit("status");
    reveal_strlit("output");
    reveal_strlit("usage");
    reveal_strlit("item");
    reveal_strlit("item_id");
    reveal_strlit("output_index");
    reveal_strlit("content_index");
    reveal_strlit("part");
    reveal_strlit("text");
    reveal_strlit("content_block");
    reveal_strlit("stop_reason");
    reveal_strlit("stop_sequence");
    reveal_strlit("input_tokens");
    reveal_strlit("output_tokens");
    reveal_strlit("total_tokens");
    reveal_strlit("data");
    reveal_strlit("owned_by");
    reveal_strlit("token");
    reveal_strlit("detail");
    assert("object"@[0] == 'o');
    assert("status"@[0] == 's');
    assert("object"@[1] == 'b');
    assert("output"@[1] == 'u');
    assert("detail"@[0] == 'd');
    assert("created"@[1] == 'r');
    assert("choices"@[1] == 'h');
    assert("content"@[1] == 'o');
    assert("created"@[0] == 'c');
    assert("message"@[0] == 'm');
    assert("item_id"@[0] == 'i');
    assert("model"@[0] == 'm');
    assert("index"@[0] == 'i');
    assert("delta"@[0] == 'd');
    assert("error"@[0] == 'e');
    assert("usage"@[0] == 'u');
    assert("token"@[0] == 't');
    assert("choices"@[0] == 'c');
    assert("role"@[0] == 'r');
    assert("type"@[0] == 't');
    assert("item"@[0] == 'i');
    assert("part"@[0] == 'p');
    assert("text"@[0] == 't');
    assert("data"@[0] == 'd');
    assert("content"@[0] == 'c');
    assert("finish_reason"@[0] == 'f');
    assert("content_index"@[0] == 'c');
    assert("content_block"@[0] == 'c');
    assert("stop_sequence"@[0] == 's');
    assert("output_tokens"@[0] == 'o');
    assert("type"@[1] == 'y');
    assert("text"@[1] == 'e');
    assert("response"@[0] == 'r');
    assert("owned_by"@[0] == 'o');
    assert("output"@[0] == 'o');
    assert("output_index"@[0] == 'o');
    assert("input_tokens"@[0] == 'i');
    assert("total_tokens"@[0] == 't');
    assert("content_index"@[8] == 'i');
    assert("content_block"@[8] == 'b');
}


/// The event `name` with a value.
pub open spec fn event_with(event: Seq<char>, name: Seq<char>, tree: JsonTree) -> bool {
    event == "event: "@ + name + "\ndata: "@ + json::printed(tree) + "\n\n"@
}

/// An event without a name, with a value.
pub open spec fn event_of(event: Seq<char>, tree: JsonTree) -> bool {
    event == "data: "@ + json::printed(tree) + "\n\n"@
}

/// The text that an event of a message's stream adds to the message.
pub open spec fn adds_to_message(event: Seq<char>, piece: Seq<char>) -> bool {
    exists|tree: JsonTree|
        {
            &&& #[trigger] event_with(event, "content_block_delta"@, tree)
            &&& tree.at("type"@) == JsonTree::Str("content_block_delta"@)
            &&& tree.at("index"@) == JsonTree::Int(0)
            &&& tree.at("delta"@).at("type"@) == JsonTree::Str("text_delta"@)
            &&& tree.at("delta"@).at("text"@) == JsonTree::Str(piece)
        }
}

/// All that a stream of a message sends behind its opening.
pub open spec fn message_run(s: MessageView, ups: Seq<UpstreamView>) -> Seq<Seq<char>>
    decreases ups.len(),
{
    if ups.len() == 0 {
        Seq::empty()
    } else {
        message_events(s, ups[0]) + message_run(message_after(s, ups[0]), ups.skip(1))
    }
}

/// A piece of the reply is sent to a client of messages as it came, in one event of its own.
pub proof fn law_message_pieces_are_sent_as_they_came(s: MessageView, piece: Seq<char>)
    requires
        !s.done,
    ensures
        message_events(s, UpstreamView::Chunk(piece)).len() == 1,
        adds_to_message(message_events(s, UpstreamView::Chunk(piece))[0], piece),
        message_after(s, UpstreamView::Chunk(piece)) == s,
{
    lemma_names();
    let event = message_events(s, UpstreamView::Chunk(piece))[0];
    let tree = block_delta_tree(piece);
    assert(event_with(event, "content_block_delta"@, tree));
    assert(tree.at("delta"@).at("text"@) == JsonTree::Str(piece));
}

/// The texts of a message's stream are the pieces of the reply, one for one and in order; behind
/// them comes what ends the message, and nothing behind that.
pub proof fn law_message_stream_is_its_pieces(
    s: MessageView,
    pieces: Seq<Seq<char>>,
    end: UpstreamView,
    more: Seq<UpstreamView>,
)
    requires
        !s.done,
        !(end is Chunk),
    ensures
        message_run(s, pieces_then(pieces, end) + more).len() == pieces.len() + message_events(
            s,
            end,
        ).len(),
        forall|i: int|
            0 <= i < pieces.len() ==> adds_to_message(
                #[trigger] message_run(s, pieces_then(pieces, end) + more)[i],
                pieces[i],
            ),
        message_run(s, pieces_then(pieces, end) + more).skip(pieces.len() as int)
            == message_events(s, end),
    decreases pieces.len(),
{
    let ups = pieces_then(pieces, end) + more;
    let run = message_run(s, ups);
    if pieces.len() == 0 {
        assert(ups[0] == end);
        assert(ups.skip(1) =~= more);
        lemma_message_silent(message_after(s, end), more);
        assert(run =~= message_events(s, end));
        assert(run.skip(0) =~= run);
    } else {
        let rest = pieces.skip(1);
        assert(ups[0] == UpstreamView::Chunk(pieces[0]));
        assert(ups.skip(1) =~= pieces_then(rest, end) + more);
        law_message_pieces_are_sent_as_they_came(s, pieces[0]);
        law_message_stream_is_its_pieces(s, rest, end, more);
        let later = message_run(s, pieces_then(rest, end) + more);
        assert forall|i: int| 0 <= i < pieces.len() implies adds_to_message(
            #[trigger] run[i],
            pieces[i],
        ) by {
            if i > 0 {
                assert(run[i] == later[i - 1]);
                assert(rest[i - 1] == pieces[i]);
            }
        }
        assert(run.skip(pieces.len() as int) =~= later.skip(rest.len() as int));
    }
}

proof fn lemma_message_silent(s: MessageView, ups: Seq<UpstreamView>)
    requires
        s.done,
    ensures
        message_run(s, ups) == Seq::<Seq<char>>::empty(),
    decreases ups.len(),
{
    if ups.len() > 0 {
        lemma_message_silent(message_after(s, ups[0]), ups.skip(1));
    }
}

/// The stream of a message opens with the message under its name and model, and with an empty
/// text; it ends with the reason and the end of the message, or with the error of the hub.
pub proof fn law_message_stream_is_framed(s: MessageView, message: Seq<char>)
    requires
        !s.done,
    ensures
        message_opening(s).len() == 3,
        event_with(
            message_opening(s)[0],
            "message_start"@,
            message_start_tree(s.model_alias, s.id),
        ),
        ({
            let start = message_start_tree(s.model_alias, s.id).at("message"@);
            &&& start.at("id"@) == JsonTree::Str(s.id)
            &&& start.at("model"@) == JsonTree::Str(s.model_alias)
            &&& start.at("role"@) == JsonTree::Str("assistant"@)
        }),
        event_with(message_opening(s)[1], "content_block_start"@, block_start_tree()),
        block_start_tree().at("content_block"@).at("text"@) == JsonTree::Str(""@),
        event_with(message_opening(s)[2], "ping"@, ping_tree()),
        message_events(s, UpstreamView::Ended).len() == 3,
        event_with(
            message_events(s, UpstreamView::Ended)[0],
            "content_block_stop"@,
            block_stop_tree(),
        ),
        event_with(
            message_events(s, UpstreamView::Ended)[1],
            "message_delta"@,
            message_delta_tree(),
        ),
        message_delta_tree().at("delta"@).at("stop_reason"@) == JsonTree::Str("end_turn"@),
        event_with(message_events(s, UpstreamView::Ended)[2], "message_stop"@, message_stop_tree()),
        message_after(s, UpstreamView::Ended).done,
        message_events(s, UpstreamView::Failed(message)).len() == 1,
        event_with(
            message_events(s, UpstreamView::Failed(message))[0],
            "error"@,
            message_error_tree(message),
        ),
        message_error_tree(message).at("error"@).at("message"@) == JsonTree::Str(message),
        message_error_tree(message).at("error"@).at("type"@) == JsonTree::Str("upstream_error"@),
        message_after(s, UpstreamView::Failed(message)).done,
{
    lemma_names();
}

/// The text that an event of a stream of chat completions adds to the reply.
pub open spec fn adds_to_completion(event: Seq<char>, s: CompletionView, piece: Seq<char>) -> bool {
    exists|tree: JsonTree|
        {
            &&& #[trigger] event_of(event, tree)
            &&& tree.at("id"@) == JsonTree::Str(s.id)
            &&& tree.at("model"@) == JsonTree::Str(s.model_alias)
            &&& tree.at("created"@) == JsonTree::Int(s.created as int)
            &&& tree.at("object"@) == JsonTree::Str("chat.completion.chunk"@)
            &&& tree.at("choices"@).item_at(0).at("delta"@).at("content"@) == JsonTree::Str(piece)
            &&& tree.at("choices"@).item_at(0).at("finish_reason"@) == JsonTree::Null
        }
}

/// A piece of the reply is sent to a client of chat completions as it came, in one event of its
/// own.
pub proof fn law_completion_pieces_are_sent_as_they_came(s: CompletionView, piece: Seq<char>)
    requires
        !s.done,
    ensures
        completion_events(s, UpstreamView::Chunk(piece)).len() == 1,
        adds_to_completion(completion_events(s, UpstreamView::Chunk(piece))[0], s, piece),
        completion_after(s, UpstreamView::Chunk(piece)) == s,
{
    lemma_names();
    let event = completion_events(s, UpstreamView::Chunk(piece))[0];
    let tree = completion_delta_tree(s.model_alias, s.id, s.created, piece);
    assert(event_of(event, tree));
    let delta = tree.at("choices"@).item_at(0).at("delta"@);
    assert(delta.at("content"@) == JsonTree::Str(piece));
}

/// The texts of a stream of chat completions are the pieces of the reply, one for one and in
/// order.
pub proof fn law_completion_stream_is_its_pieces(
    s: CompletionView,
    pieces: Seq<Seq<char>>,
    end: UpstreamView,
    more: Seq<UpstreamView>,
)
    requires
        !s.done,
        !(end is Chunk),
    ensures
        completion_run(s, pieces_then(pieces, end) + more).len() == pieces.len() + 2,
        forall|i: int|
            0 <= i < pieces.len() ==> adds_to_completion(
                #[trigger] completion_run(s, pieces_then(pieces, end) + more)[i],
                s,
                pieces[i],
            ),
        completion_run(s, pieces_then(pieces, end) + more).last() == "data: [DONE]\n\n"@,
{
    law_completion_stream_ends_with_done(s, pieces, end, more);
    let run = completion_run(s, pieces_then(pieces, end) + more);
    assert forall|i: int| 0 <= i < pieces.len() implies adds_to_completion(
        #[trigger] run[i],
        s,
        pieces[i],
    ) by {
        law_completion_pieces_are_sent_as_they_came(s, pieces[i]);
        assert(run[i] == completion_events(s, UpstreamView::Chunk(pieces[i]))[0]);
    }
}

/// A stream of chat completions opens with the assistant's role and ends with the reason, or with
/// the error of the hub, each before the mark of the end.
pub proof fn law_completion_stream_is_framed(s: CompletionView, message: Seq<char>)
    requires
        !s.done,
    ensures
        completion_opening(s).len() == 1,
        ({
            let tree = completion_start_tree(s.model_alias, s.id, s.created);
            &&& event_of(completion_opening(s)[0], tree)
            &&& tree.at("id"@) == JsonTree::Str(s.id)
            &&& tree.at("model"@) == JsonTree::Str(s.model_alias)
            &&& tree.at("choices"@).item_at(0).at("delta"@).at("role"@) == JsonTree::Str(
                "assistant"@,
            )
            &&& tree.at("choices"@).item_at(0).at("finish_reason"@) == JsonTree::Null
        }),
        ({
            let events = completion_events(s, UpstreamView::Ended);
            let tree = completion_stop_tree(s.model_alias, s.id, s.created);
            &&& events.len() == 2
            &&& event_of(events[0], tree)
            &&& tree.at("id"@) == JsonTree::Str(s.id)
            &&& tree.at("choices"@).item_at(0).at("delta"@) == JsonTree::Object(Map::empty())
            &&& tree.at("choices"@).item_at(0).at("finish_reason"@) == JsonTree::Str("stop"@)
            &&& events[1] == "data: [DONE]\n\n"@
        }),
        ({
            let events = completion_events(s, UpstreamView::Failed(message));
            let tree = completion_error_tree(message);
            &&& events.len() == 2
            &&& event_of(events[0], tree)
            &&& tree.at("error"@).at("message"@) == JsonTree::Str(message)
            &&& tree.at("error"@).at("type"@) == JsonTree::Str("upstream_error"@)
            &&& events[1] == "data: [DONE]\n\n"@
        }),
        completion_after(s, UpstreamView::Ended).done,
        completion_after(s, UpstreamView::Failed(message)).done,
{
    lemma_names();
}

/// A piece of the reply is sent to a client of responses as it came, in one event of its own, and
/// is added to the whole text.
pub proof fn law_response_pieces_are_sent_as_they_came(s: ResponseView, piece: Seq<char>)
    requires
        !s.done,
    ensures
        ({
            let events = response_events(s, UpstreamView::Chunk(piece));
            let tree = text_delta_tree(s.item_id, piece);
            &&& events.len() == 1
            &&& event_of(events[0], tree)
            &&& tree.at("type"@) == JsonTree::Str("response.output_text.delta"@)
            &&& tree.at("item_id"@) == JsonTree::Str(s.item_id)
            &&& tree.at("delta"@) == JsonTree::Str(piece)
        }),
        response_after(s, UpstreamView::Chunk(piece)).full_text == s.full_text + piece,
        !response_after(s, UpstreamView::Chunk(piece)).done,
{
    lemma_names();
}

/// A response is opened under its name and model, with a message that has no text yet.
pub proof fn law_response_stream_is_opened(s: ResponseView)
    ensures
        response_opening(s).len() == 3,
        ({
            let tree = response_created_tree(s.model_alias, s.id, s.created);
            &&& event_of(response_opening(s)[0], tree)
            &&& tree.at("type"@) == JsonTree::Str("response.created"@)
            &&& tree.at("response"@).at("id"@) == JsonTree::Str(s.id)
            &&& tree.at("response"@).at("model"@) == JsonTree::Str(s.model_alias)
            &&& tree.at("response"@).at("status"@) == JsonTree::Str("in_progress"@)
        }),
        ({
            let tree = item_added_tree(s.item_id);
            &&& event_of(response_opening(s)[1], tree)
            &&& tree.at("type"@) == JsonTree::Str("response.output_item.added"@)
            &&& tree.at("item"@).at("id"@) == JsonTree::Str(s.item_id)
            &&& tree.at("item"@).at("role"@) == JsonTree::Str("assistant"@)
        }),
        ({
            let tree = part_added_tree(s.item_id);
            &&& event_of(response_opening(s)[2], tree)
            &&& tree.at("type"@) == JsonTree::Str("response.content_part.added"@)
            &&& tree.at("item_id"@) == JsonTree::Str(s.item_id)
            &&& tree.at("part"@).at("text"@) == JsonTree::Str(""@)
        }),
{
    lemma_names();
}

/// A response that is complete is sent with its whole text, twice: when the text is complete, and
/// in the response; one that fails is sent with the error of the hub and is not completed.
pub proof fn law_response_is_completed_with_its_text(s: ResponseView, message: Seq<char>)
    requires
        !s.done,
    ensures
        ({
            let events = response_events(s, UpstreamView::Ended);
            let text_tree = text_done_tree(s.item_id, s.full_text);
            let tree = response_completed_tree(
                s.model_alias,
                s.full_text,
                s.id,
                s.item_id,
                s.created,
            );
            let output = tree.at("response"@).at("output"@).item_at(0);
            &&& events.len() == 2
            &&& event_of(events[0], text_tree)
            &&& text_tree.at("type"@) == JsonTree::Str("response.output_text.done"@)
            &&& text_tree.at("item_id"@) == JsonTree::Str(s.item_id)
            &&& text_tree.at("text"@) == JsonTree::Str(s.full_text)
            &&& event_of(events[1], tree)
            &&& tree.at("type"@) == JsonTree::Str("response.completed"@)
            &&& tree.at("response"@).at("id"@) == JsonTree::Str(s.id)
            &&& tree.at("response"@).at("model"@) == JsonTree::Str(s.model_alias)
            &&& tree.at("response"@).at("status"@) == JsonTree::Str("completed"@)
            &&& output.at("id"@) == JsonTree::Str(s.item_id)
            &&& output.at("role"@) == JsonTree::Str("assistant"@)
            &&& output.at("content"@).item_at(0).at("text"@) == JsonTree::Str(s.full_text)
        }),
        ({
            let events = response_events(s, UpstreamView::Failed(message));
            let tree = response_error_tree(message);
            &&& events.len() == 1
            &&& event_of(events[0], tree)
            &&& tree.at("type"@) == JsonTree::Str("error"@)
            &&& tree.at("error"@).at("message"@) == JsonTree::Str(message)
            &&& tree.at("error"@).at("type"@) == JsonTree::Str("upstream_error"@)
        }),
        response_after(s, UpstreamView::Ended).done,
        response_after(s, UpstreamView::Failed(message)).done,
{
    lemma_names();
}

/// A whole answer holds the reply as it is, at the place where each kind of client looks for it,
/// under its name and model.
pub proof fn law_whole_answers_hold_the_reply(
    model: Seq<char>,
    reply: Seq<char>,
    id: Seq<char>,
    item_id: Seq<char>,
    created: i64,
)
    ensures
        ({
            let tree = chat_completion_tree(model, reply, id, created);
            let choice = tree.at("choices"@).item_at(0);
            &&& choice.at("message"@).at("content"@) == JsonTree::Str(reply)
            &&& choice.at("message"@).at("role"@) == JsonTree::Str("assistant"@)
            &&& choice.at("finish_reason"@) == JsonTree::Str("stop"@)
            &&& tree.at("id"@) == JsonTree::Str(id)
            &&& tree.at("model"@) == JsonTree::Str(model)
            &&& tree.at("created"@) == JsonTree::Int(created as int)
            &&& tree.at("object"@) == JsonTree::Str("chat.completion"@)
        }),
        ({
            let tree = response_tree(model, reply, id, item_id, created);
            let output = tree.at("output"@).item_at(0);
            &&& output.at("content"@).item_at(0).at("text"@) == JsonTree::Str(reply)
            &&& output.at("content"@).item_at(0).at("type"@) == JsonTree::Str("output_text"@)
            &&& output.at("id"@) == JsonTree::Str(item_id)
            &&& output.at("role"@) == JsonTree::Str("assistant"@)
            &&& tree.at("id"@) == JsonTree::Str(id)
            &&& tree.at("model"@) == JsonTree::Str(model)
            &&& tree.at("created_at"@) == JsonTree::Int(created as int)
        }),
        ({
            let tree = message_tree(model, reply, id);
            &&& tree.at("content"@).item_at(0).at("text"@) == JsonTree::Str(reply)
            &&& tree.at("content"@).item_at(0).at("type"@) == JsonTree::Str("text"@)
            &&& tree.at("role"@) == JsonTree::Str("assistant"@)
            &&& tree.at("stop_reason"@) == JsonTree::Str("end_turn"@)
            &&& tree.at("id"@) == JsonTree::Str(id)
            &&& tree.at("model"@) == JsonTree::Str(model)
        }),
{
    lemma_names();
}

/// The list of models names the one model, and the answer about the proxy's health shows the
/// token's status as it is.
pub proof fn law_models_and_health_are_shown(model: Seq<char>, token: JsonTree)
    ensures
        list_models_tree(model).at("data"@).item_at(0).at("id"@) == JsonTree::Str(model),
        list_models_tree(model).at("data"@).item_at(1) == JsonTree::Null,
        health_tree(token).at("token"@) == token,
        health_tree(token).at("status"@) == JsonTree::Str("ok"@),
{
    lemma_names();
}

/// Conversations that headers name differ where their names do, apart from white space around
/// them, and are one where the names are one.
pub proof fn law_header_names_its_conversation(
    header: Seq<char>,
    other: Seq<char>,
    model: Seq<char>,
    fallback: Option<Seq<char>>,
)
    requires
        text::trimmed(header).len() > 0,
        text::trimmed(other).len() > 0,
    ensures
        session_key_of(Some(header), model, fallback) == session_key_of(
            Some(other),
            model,
            fallback,
        ) <==> text::trimmed(header) == text::trimmed(other),
{
    let a = "header:"@ + text::trimmed(header);
    let b = "header:"@ + text::trimmed(other);
    let n = "header:"@.len() as int;
    assert(a.skip(n) =~= text::trimmed(header));
    assert(b.skip(n) =~= text::trimmed(other));
}

/// A model whose name ends in `:persist` has a conversation for each user's key, and one for
/// requests without a key; a blank header changes nothing.
pub proof fn law_persistent_models_have_conversations(
    name: Seq<char>,
    key: Seq<char>,
    other: Seq<char>,
    blank: Seq<char>,
)
    requires
        text::trimmed(blank).len() == 0,
    ensures
        session_key_of(None, name + ":persist"@, Some(key)) is Some,
        session_key_of(None, name + ":persist"@, Some(key)) == session_key_of(
            None,
            name + ":persist"@,
            Some(other),
        ) <==> key == other,
        session_key_of(None, name + ":persist"@, None) == session_key_of(
            None,
            name + ":persist"@,
            Some("default"@),
        ),
        session_key_of(Some(blank), name, Some(key)) == session_key_of(None, name, Some(key)),
        session_key_of(Some(blank), name, None) == session_key_of(None, name, None),
{
    let model = name + ":persist"@;
    assert(model.skip(name.len() as int) =~= ":persist"@);
    let a = "model:"@ + key;
    let b = "model:"@ + other;
    let n = "model:"@.len() as int;
    assert(a.skip(n) =~= key);
    assert(b.skip(n) =~= other);
}

/// What is done for a request is what it was translated into, in the conversation that its header,
/// its model and, for a chat request, its user name; it is streamed exactly where that was asked
/// for. A request that cannot be translated is refused with the reason.
pub proof fn law_plans_carry_the_request(
    chat: OpenAIChatRequest,
    response: OpenAIResponsesRequest,
    message: AnthropicMessagesRequest,
    header: Option<Seq<char>>,
)
    ensures
        match (translator::openai_translation(chat), chat_completions_plan(chat, header)) {
            (Ok(translated), Ok(plan)) => {
                &&& plan.translated == translated
                &&& plan.stream == chat.stream
                &&& plan.session_key == session_key_of(
                    header,
                    chat.model@,
                    text::string_view(chat.user),
                )
            },
            (Err(a), Err(b)) => a == b,
            _ => false,
        },
        match (translator::responses_translation(response), responses_plan(response, header)) {
            (Ok(translated), Ok(plan)) => {
                &&& plan.translated == translated
                &&& plan.stream == response.stream
                &&& plan.session_key == session_key_of(header, response.model@, None)
            },
            (Err(a), Err(b)) => a == b,
            _ => false,
        },
        match (translator::anthropic_translation(message), messages_plan(message, header)) {
            (Ok(translated), Ok(plan)) => {
                &&& plan.translated == translated
                &&& plan.stream == message.stream
                &&& plan.session_key == session_key_of(header, message.model@, None)
            },
            (Err(a), Err(b)) => a == b,
            _ => false,
        },
{
}

/// A chat completion, and each of the values that a stream of one sends, has these members and no
/// others.
pub proof fn law_completions_have_their_members(
    model_alias: Seq<char>,
    text: Seq<char>,
    id: Seq<char>,
    created: i64,
    content: Seq<char>,
    message: Seq<char>,
)
    ensures
        ({
            let tree = chat_completion_tree(model_alias, text, id, created);
            let choices = tree.at("choices"@);
            let choice = choices.item_at(0);
            let message_value = choice.at("message"@);
            &&& tree.names() == set!["id"@, "object"@, "created"@, "model"@, "choices"@]
            &&& tree.at("id"@) == JsonTree::Str(id)
            &&& tree.at("object"@) == JsonTree::Str("chat.completion"@)
            &&& tree.at("created"@) == JsonTree::Int(created as int)
            &&& tree.at("model"@) == JsonTree::Str(model_alias)
            &&& choices.length() == 1
            &&& choice.names() == set!["index"@, "message"@, "finish_reason"@]
            &&& choice.at("index"@) == JsonTree::Int(0)
            &&& message_value.names() == set!["role"@, "content"@]
            &&& message_value.at("role"@) == JsonTree::Str("assistant"@)
            &&& message_value.at("content"@) == JsonTree::Str(text)
            &&& choice.at("finish_reason"@) == JsonTree::Str("stop"@)
        }),
        ({
            let tree = completion_start_tree(model_alias, id, created);
            let choices = tree.at("choices"@);
            let choice = choices.item_at(0);
            let delta = choice.at("delta"@);
            &&& tree.names() == set!["id"@, "object"@, "created"@, "model"@, "choices"@]
            &&& tree.at("id"@) == JsonTree::Str(id)
            &&& tree.at("object"@) == JsonTree::Str("chat.completion.chunk"@)
            &&& tree.at("created"@) == JsonTree::Int(created as int)
            &&& tree.at("model"@) == JsonTree::Str(model_alias)
            &&& choices.length() == 1
            &&& choice.names() == set!["index"@, "delta"@, "finish_reason"@]
            &&& choice.at("index"@) == JsonTree::Int(0)
            &&& delta.names() == set!["role"@]
            &&& delta.at("role"@) == JsonTree::Str("assistant"@)
            &&& choice.at("finish_reason"@) == JsonTree::Null
        }),
        ({
            let tree = completion_delta_tree(model_alias, id, created, content);
            let choices = tree.at("choices"@);
            let choice = choices.item_at(0);
            let delta = choice.at("delta"@);
            &&& tree.names() == set!["id"@, "object"@, "created"@, "model"@, "choices"@]
            &&& tree.at("id"@) == JsonTree::Str(id)
            &&& tree.at("object"@) == JsonTree::Str("chat.completion.chunk"@)
            &&& tree.at("created"@) == JsonTree::Int(created as int)
            &&& tree.at("model"@) == JsonTree::Str(model_alias)
            &&& choices.length() == 1
            &&& choice.names() == set!["index"@, "delta"@, "finish_reason"@]
            &&& choice.at("index"@) == JsonTree::Int(0)
            &&& delta.names() == set!["content"@]
            &&& delta.at("content"@) == JsonTree::Str(content)
            &&& choice.at("finish_reason"@) == JsonTree::Null
        }),
        ({
            let tree = completion_stop_tree(model_alias, id, created);
            let choices = tree.at("choices"@);
            let choice = choices.item_at(0);
            &&& tree.names() == set!["id"@, "object"@, "created"@, "model"@, "choices"@]
            &&& tree.at("id"@) == JsonTree::Str(id)
            &&& tree.at("object"@) == JsonTree::Str("chat.completion.chunk"@)
            &&& tree.at("created"@) == JsonTree::Int(created as int)
            &&& tree.at("model"@) == JsonTree::Str(model_alias)
            &&& choices.length() == 1
            &&& choice.names() == set!["index"@, "delta"@, "finish_reason"@]
            &&& choice.at("index"@) == JsonTree::Int(0)
            &&& choice.at("delta"@) == JsonTree::Object(Map::empty())
            &&& choice.at("finish_reason"@) == JsonTree::Str("stop"@)
        }),
        ({
            let tree = completion_error_tree(message);
            let error = tree.at("error"@);
            &&& tree.names() == set!["error"@]
            &&& error.names() == set!["message"@, "type"@]
            &&& error.at("message"@) == JsonTree::Str(message)
            &&& error.at("type"@) == JsonTree::Str("upstream_error"@)
        }),
{
    lemma_names();
}

/// A response, as a whole and at the end of its stream, has these members and no others.
pub proof fn law_whole_responses_have_their_members(
    model_alias: Seq<char>,
    text: Seq<char>,
    id: Seq<char>,
    item_id: Seq<char>,
    created: i64,
)
    ensures
        ({
            let tree = response_tree(model_alias, text, id, item_id, created);
            let output = tree.at("output"@);
            let output_item = output.item_at(0);
            let content = output_item.at("content"@);
            let part = content.item_at(0);
            let usage = tree.at("usage"@);
            &&& tree.names() == set!["id"@, "object"@, "created_at"@, "model"@, "output"@, "usage"@]
            &&& tree.at("id"@) == JsonTree::Str(id)
            &&& tree.at("object"@) == JsonTree::Str("response"@)
            &&& tree.at("created_at"@) == JsonTree::Int(created as int)
            &&& tree.at("model"@) == JsonTree::Str(model_alias)
            &&& output.length() == 1
            &&& output_item.names() == set!["type"@, "id"@, "role"@, "content"@]
            &&& output_item.at("type"@) == JsonTree::Str("message"@)
            &&& output_item.at("id"@) == JsonTree::Str(item_id)
            &&& output_item.at("role"@) == JsonTree::Str("assistant"@)
            &&& content.length() == 1
            &&& part.names() == set!["type"@, "text"@]
            &&& part.at("type"@) == JsonTree::Str("output_text"@)
            &&& part.at("text"@) == JsonTree::Str(text)
            &&& usage.names() == set!["input_tokens"@, "output_tokens"@, "total_tokens"@]
            &&& usage.at("input_tokens"@) == JsonTree::Int(0)
            &&& usage.at("output_tokens"@) == JsonTree::Int(0)
            &&& usage.at("total_tokens"@) == JsonTree::Int(0)
        }),
        ({
            let tree = response_completed_tree(model_alias, text, id, item_id, created);
            let response = tree.at("response"@);
            let output = response.at("output"@);
            let output_item = output.item_at(0);
            let content = output_item.at("content"@);
            let part = content.item_at(0);
            let usage = response.at("usage"@);
            &&& tree.names() == set!["type"@, "response"@]
            &&& tree.at("type"@) == JsonTree::Str("response.completed"@)
            &&& response.names() == set![
                "id"@,
                "object"@,
                "created_at"@,
                "model"@,
                "status"@,
                "output"@,
                "usage"@,
            ]
            &&& response.at("id"@) == JsonTree::Str(id)
            &&& response.at("object"@) == JsonTree::Str("response"@)
            &&& response.at("created_at"@) == JsonTree::Int(created as int)
            &&& response.at("model"@) == JsonTree::Str(model_alias)
            &&& response.at("status"@) == JsonTree::Str("completed"@)
            &&& output.length() == 1
            &&& output_item.names() == set!["id"@, "type"@, "role"@, "content"@]
            &&& output_item.at("id"@) == JsonTree::Str(item_id)
            &&& output_item.at("type"@) == JsonTree::Str("message"@)
            &&& output_item.at("role"@) == JsonTree::Str("assistant"@)
            &&& content.length() == 1
            &&& part.names() == set!["type"@, "text"@]
            &&& part.at("type"@) == JsonTree::Str("output_text"@)
            &&& part.at("text"@) == JsonTree::Str(text)
            &&& usage.names() == set!["input_tokens"@, "output_tokens"@, "total_tokens"@]
            &&& usage.at("input_tokens"@) == JsonTree::Int(0)
            &&& usage.at("output_tokens"@) == JsonTree::Int(0)
            &&& usage.at("total_tokens"@) == JsonTree::Int(0)
        }),
{
    lemma_names();
}

/// Each of the other values that a stream of a response sends has these members and no others.
pub proof fn law_responses_have_their_members(
    model_alias: Seq<char>,
    text: Seq<char>,
    id: Seq<char>,
    item_id: Seq<char>,
    created: i64,
    delta: Seq<char>,
    message: Seq<char>,
)
    ensures
        ({
            let tree = response_created_tree(model_alias, id, created);
            let response = tree.at("response"@);
            &&& tree.names() == set!["type"@, "response"@]
            &&& tree.at("type"@) == JsonTree::Str("response.created"@)
            &&& response.names() == set![
                "id"@,
                "object"@,
                "created_at"@,
                "model"@,
                "status"@,
                "output"@,
            ]
            &&& response.at("id"@) == JsonTree::Str(id)
            &&& response.at("object"@) == JsonTree::Str("response"@)
            &&& response.at("created_at"@) == JsonTree::Int(created as int)
            &&& response.at("model"@) == JsonTree::Str(model_alias)
            &&& response.at("status"@) == JsonTree::Str("in_progress"@)
            &&& response.at("output"@) == JsonTree::Array(Seq::empty())
        }),
        ({
            let tree = item_added_tree(item_id);
            let item = tree.at("item"@);
            &&& tree.names() == set!["type"@, "output_index"@, "item"@]
            &&& tree.at("type"@) == JsonTree::Str("response.output_item.added"@)
            &&& tree.at("output_index"@) == JsonTree::Int(0)
            &&& item.names() == set!["id"@, "type"@, "role"@, "content"@]
            &&& item.at("id"@) == JsonTree::Str(item_id)
            &&& item.at("type"@) == JsonTree::Str("message"@)
            &&& item.at("role"@) == JsonTree::Str("assistant"@)
            &&& item.at("content"@) == JsonTree::Array(Seq::empty())
        }),
        ({
            let tree = part_added_tree(item_id);
            let part = tree.at("part"@);
            &&& tree.names() == set![
                "type"@,
                "item_id"@,
                "output_index"@,
                "content_index"@,
                "part"@,
            ]
            &&& tree.at("type"@) == JsonTree::Str("response.content_part.added"@)
            &&& tree.at("item_id"@) == JsonTree::Str(item_id)
            &&& tree.at("output_index"@) == JsonTree::Int(0)
            &&& tree.at("content_index"@) == JsonTree::Int(0)
            &&& part.names() == set!["type"@, "text"@]
            &&& part.at("type"@) == JsonTree::Str("output_text"@)
            &&& part.at("text"@) == JsonTree::Str(""@)
        }),
        ({
            let tree = text_delta_tree(item_id, delta);
            &&& tree.names() == set![
                "type"@,
                "item_id"@,
                "output_index"@,
                "content_index"@,
                "delta"@,
            ]
            &&& tree.at("type"@) == JsonTree::Str("response.output_text.delta"@)
            &&& tree.at("item_id"@) == JsonTree::Str(item_id)
            &&& tree.at("output_index"@) == JsonTree::Int(0)
            &&& tree.at("content_index"@) == JsonTree::Int(0)
            &&& tree.at("delta"@) == JsonTree::Str(delta)
        }),
        ({
            let tree = text_done_tree(item_id, text);
            &&& tree.names() == set![
                "type"@,
                "item_id"@,
                "output_index"@,
                "content_index"@,
                "text"@,
            ]
            &&& tree.at("type"@) == JsonTree::Str("response.output_text.done"@)
            &&& tree.at("item_id"@) == JsonTree::Str(item_id)
            &&& tree.at("output_index"@) == JsonTree::Int(0)
            &&& tree.at("content_index"@) == JsonTree::Int(0)
            &&& tree.at("text"@) == JsonTree::Str(text)
        }),
        ({
            let tree = response_error_tree(message);
            let error = tree.at("error"@);
            &&& tree.names() == set!["type"@, "error"@]
            &&& tree.at("type"@) == JsonTree::Str("error"@)
            &&& error.names() == set!["message"@, "type"@]
            &&& error.at("message"@) == JsonTree::Str(message)
            &&& error.at("type"@) == JsonTree::Str("upstream_error"@)
        }),
{
    lemma_names();
}

/// A message, and each of the values that a stream of one sends, has these members and no others.
pub proof fn law_messages_have_their_members(
    model_alias: Seq<char>,
    text: Seq<char>,
    id: Seq<char>,
    message: Seq<char>,
)
    ensures
        ({
            let tree = message_tree(model_alias, text, id);
            let content = tree.at("content"@);
            let part = content.item_at(0);
            let usage = tree.at("usage"@);
            &&& tree.names() == set![
                "id"@,
                "type"@,
                "role"@,
                "model"@,
                "content"@,
                "stop_reason"@,
                "stop_sequence"@,
                "usage"@,
            ]
            &&& tree.at("id"@) == JsonTree::Str(id)
            &&& tree.at("type"@) == JsonTree::Str("message"@)
            &&& tree.at("role"@) == JsonTree::Str("assistant"@)
            &&& tree.at("model"@) == JsonTree::Str(model_alias)
            &&& content.length() == 1
            &&& part.names() == set!["type"@, "text"@]
            &&& part.at("type"@) == JsonTree::Str("text"@)
            &&& part.at("text"@) == JsonTree::Str(text)
            &&& tree.at("stop_reason"@) == JsonTree::Str("end_turn"@)
            &&& tree.at("stop_sequence"@) == JsonTree::Null
            &&& usage.names() == set!["input_tokens"@, "output_tokens"@]
            &&& usage.at("input_tokens"@) == JsonTree::Int(0)
            &&& usage.at("output_tokens"@) == JsonTree::Int(0)
        }),
        ({
            let tree = message_start_tree(model_alias, id);
            let message_value = tree.at("message"@);
            let usage = message_value.at("usage"@);
            &&& tree.names() == set!["type"@, "message"@]
            &&& tree.at("type"@) == JsonTree::Str("message_start"@)
            &&& message_value.names() == set![
                "id"@,
                "type"@,
                "role"@,
                "content"@,
                "model"@,
                "stop_reason"@,
                "stop_sequence"@,
                "usage"@,
            ]
            &&& message_value.at("id"@) == JsonTree::Str(id)
            &&& message_value.at("type"@) == JsonTree::Str("message"@)
            &&& message_value.at("role"@) == JsonTree::Str("assistant"@)
            &&& message_value.at("content"@) == JsonTree::Array(Seq::empty())
            &&& message_value.at("model"@) == JsonTree::Str(model_alias)
            &&& message_value.at("stop_reason"@) == JsonTree::Null
            &&& message_value.at("stop_sequence"@) == JsonTree::Null
            &&& usage.names() == set!["input_tokens"@, "output_tokens"@]
            &&& usage.at("input_tokens"@) == JsonTree::Int(0)
            &&& usage.at("output_tokens"@) == JsonTree::Int(0)
        }),
        ({
            let tree = block_start_tree();
            let content_block = tree.at("content_block"@);
            &&& tree.names() == set!["type"@, "index"@, "content_block"@]
            &&& tree.at("type"@) == JsonTree::Str("content_block_start"@)
            &&& tree.at("index"@) == JsonTree::Int(0)
            &&& content_block.names() == set!["type"@, "text"@]
            &&& content_block.at("type"@) == JsonTree::Str("text"@)
            &&& content_block.at("text"@) == JsonTree::Str(""@)
        }),
        ({
            let tree = ping_tree();
            &&& tree.names() == set!["type"@]
            &&& tree.at("type"@) == JsonTree::Str("ping"@)
        }),
        ({
            let tree = block_delta_tree(text);
            let delta = tree.at("delta"@);
            &&& tree.names() == set!["type"@, "index"@, "delta"@]
            &&& tree.at("type"@) == JsonTree::Str("content_block_delta"@)
            &&& tree.at("index"@) == JsonTree::Int(0)
            &&& delta.names() == set!["type"@, "text"@]
            &&& delta.at("type"@) == JsonTree::Str("text_delta"@)
            &&& delta.at("text"@) == JsonTree::Str(text)
        }),
        ({
            let tree = block_stop_tree();
            &&& tree.names() == set!["type"@, "index"@]
            &&& tree.at("type"@) == JsonTree::Str("content_block_stop"@)
            &&& tree.at("index"@) == JsonTree::Int(0)
        }),
        ({
            let tree = message_delta_tree();
            let delta = tree.at("delta"@);
            let usage = tree.at("usage"@);
            &&& tree.names() == set!["type"@, "delta"@, "usage"@]
            &&& tree.at("type"@) == JsonTree::Str("message_delta"@)
            &&& delta.names() == set!["stop_reason"@, "stop_sequence"@]
            &&& delta.at("stop_reason"@) == JsonTree::Str("end_turn"@)
            &&& delta.at("stop_sequence"@) == JsonTree::Null
            &&& usage.names() == set!["output_tokens"@]
            &&& usage.at("output_tokens"@) == JsonTree::Int(0)
        }),
        ({
            let tree = message_stop_tree();
            &&& tree.names() == set!["type"@]
            &&& tree.at("type"@) == JsonTree::Str("message_stop"@)
        }),
        ({
            let tree = message_error_tree(message);
            let error = tree.at("error"@);
            &&& tree.names() == set!["type"@, "error"@]
            &&& tree.at("type"@) == JsonTree::Str("error"@)
            &&& error.names() == set!["type"@, "message"@]
            &&& error.at("type"@) == JsonTree::Str("upstream_error"@)
            &&& error.at("message"@) == JsonTree::Str(message)
        }),
{
    lemma_names();
}

/// The list of models and the answer about the health have these members and no others.
pub proof fn law_lists_and_health_have_their_members(
    model_alias: Seq<char>,
    token: JsonTree,
)
    ensures
        ({
            let tree = list_models_tree(model_alias);
            let data = tree.at("data"@);
            let entry = data.item_at(0);
            &&& tree.names() == set!["object"@, "data"@]
            &&& tree.at("object"@) == JsonTree::Str("list"@)
            &&& data.length() == 1
            &&& entry.names() == set!["id"@, "object"@, "owned_by"@]
            &&& entry.at("id"@) == JsonTree::Str(model_alias)
            &&& entry.at("object"@) == JsonTree::Str("model"@)
            &&& entry.at("owned_by"@) == JsonTree::Str("microsoft-365-copilot"@)
        }),
        ({
            let tree = health_tree(token);
            &&& tree.names() == set!["status"@, "token"@]
            &&& tree.at("status"@) == JsonTree::Str("ok"@)
            &&& tree.at("token"@) == token
        }),
{
    lemma_names();
}

/// A failure of the hub is a bad gateway with the failure's text, and a request that is refused is a
/// bad request with the reason.
pub proof fn law_failures_have_their_status(
    failure: SubstrateCopilotError,
    refusal: AppError,
    reason: Seq<char>,
    wanted: PlanView,
)
    ensures
        ({
            let made = <AppError as vstd::std_specs::convert::FromSpec<
                SubstrateCopilotError,
            >>::from_spec(failure);
            made.status == 502 && made.detail@ == failure.0@
        }),
        plans(Err(refusal), Err(reason)) <==> refusal.status == 400 && refusal.detail@ == reason,
        !plans(Err(refusal), Ok(wanted)),
{
}

/// While pieces come, a response keeps its names, its model and its time.
pub proof fn law_response_keeps_its_names(s: ResponseView, piece: Seq<char>)
    ensures
        response_after(s, UpstreamView::Chunk(piece)).id == s.id,
        response_after(s, UpstreamView::Chunk(piece)).item_id == s.item_id,
        response_after(s, UpstreamView::Chunk(piece)).model_alias == s.model_alias,
        response_after(s, UpstreamView::Chunk(piece)).created == s.created,
{
}

} // verus!
