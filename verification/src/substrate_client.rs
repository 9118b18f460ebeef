//! The Substrate chat hub: the client that is opened with an access token, the messages it sends,
//! and the reply that the hub's frames add up to.
use vstd::prelude::*;
use vstd::string::*;

use crate::json::{self, parse_json, print_json, Json, JsonTree};
use crate::session_store::{self, fresh_uuid, CopilotTurn};
use crate::text::{self, join_text, same_text, split_text, trim_text};
use crate::token_store::{
    self, decode_jwt_payload, is_substrate_token_claims, unix_now,
};

verus! {

/// The character that ends each message of the hub's protocol.
pub const SIGNALR_SEP: char = '\u{1e}';

/// Where the chat hub is.
pub const WS_BASE: &'static str = "wss://substrate.office.com/m365Copilot/Chathub";

/// The features that each connection asks for.
pub const VARIANTS: &'static str = "EnableMcpServerWidgets,feature.EnableMcpServerWidgets,feature.EnableLuForChatCIQ,\
feature.enableChatCIQPlugin,EnableRequestPlugins,feature.EnableSensitivityLabels,\
EnableUnsupportedUrlDetector,feature.IsCustomEngineCopilotEnabled,feature.bizchatfluxv3,\
feature.enablechatpages,feature.enableCodeCanvas,feature.turnOnWorkTabRecommendation,\
feature.turnOnDARecommendation,feature.IsStreamingModeInChatRequestEnabled,\
IncludeSourceAttributionsConcise,SkipPublishEmptyMessage,\
feature.EnableDeduplicatingSourceAttributions,Enable3PActionProgressMessages,\
feature.enableClientWebRtc,feature.EnableMeetingRecapOfSeriesMeetingWithCiq,\
feature.EnableReferencesListCompleteSignal,feature.StorageMessageSplitDisabled,\
feature.EnableCuaTakeControlApi,SingletonEnvOn,feature.cwcallowedos,\
feature.EnableMergingPureDeltas,feature.disabledisallowedmsgs,\
feature.enableCitationsForSynthesisData,feature.EnableConversationShareApis,\
feature.enableGenerateGraphicArtOptionsSet,cdximagen,\
feature.EnableUpdatedUXForConfirmationDialog,\
feature.EnableContentApiandDocTypeHtmlInRichAnswers,\
cdxgrounding_api_v2_rich_web_answers_reference_bottom_force,\
cdxenablerenderforisocomp,feature.EnableClientFileURLSupportForOfficeWebPaidCopilot,\
feature.EnableDesignEditorImageGrounding,feature.EnableDesignerEditor,\
feature.EnableSkipRehydrationForSpeCIdImages,feature.EnableSkipEmittingMessageOnFlush,\
feature.EnableRemoveEmptySourceAttributions,feature.EnableRemoveStreamingMode,\
feature.OfficeWebToHelix,feature.OfficeDesktopToHelix,feature.M365TeamsHubToHelix,\
feature.OwaHubToHelix,feature.MonarchHubToHelix,feature.Win32OutlookHubToHelix,\
feature.MacOutlookHubToHelix,Agt_bizchat_enableGpt5ForHelix";

/// The origin that each connection names.
pub const ORIGIN: &'static str = "https://m365.cloud.microsoft";

/// The query that ends the address of each connection.
pub const ADDRESS_END: &'static str = "&source=officeweb&product=Office&agentHost=Bizchat.FullScreen&licenseType=Starter&agent=web&scenario=OfficeWebIncludedCopilot";

/// The first message of each connection, without its end.
pub const HANDSHAKE: &'static str = "{\"protocol\":\"json\",\"version\":1}";

/// What is said where there is no token.
pub const TOKEN_MISSING: &'static str = "M365_ACCESS_TOKEN is missing. Start the debug Edge window and let startup token capture complete, or run `copilot-openai-proxy set-token`.";

/// What is said of a token for another service.
pub const TOKEN_FOREIGN: &'static str = "Access token is not a substrate.office.com token.";

/// What is said of a token that has expired.
pub const TOKEN_EXPIRED: &'static str = "Access token expired. To refresh: open M365 Copilot in your browser, DevTools → Network → filter 'substrate' → click the WebSocket → Headers → copy the access_token= query param → update M365_ACCESS_TOKEN in .env";

/// What is said where the time cannot be read.
pub const CLOCK_UNREADABLE: &'static str = "The system clock cannot be read.";

/// Why the hub could not be used.
#[derive(Debug)]
pub struct SubstrateCopilotError(pub String);

/// What is said where the address of a turn cannot be connected to.
pub fn invalid_request(reason: &str) -> (message: String)
    ensures
        message@ == "invalid websocket request: "@ + reason@,
{
    let mut message = "invalid websocket request: ".to_owned();
    message.append(reason);
    message
}

impl SubstrateCopilotError {
    /// The error as text.
    pub fn message(&self) -> (message: String)
        ensures
            message@ == self.0@,
    {
        self.0.clone()
    }
}

// ---------------------------------------------------------------------------------------------
// Percent-encoding
// ---------------------------------------------------------------------------------------------

/// A byte that stands for itself in a URL.
pub open spec fn unreserved(b: u8) -> bool {
    ||| 0x30 <= b <= 0x39
    ||| 0x41 <= b <= 0x5a
    ||| 0x61 <= b <= 0x7a
    ||| b == 0x2d
    ||| b == 0x2e
    ||| b == 0x5f
    ||| b == 0x7e
}

/// A hexadecimal digit in upper case.
pub open spec fn upper_hex(n: int) -> char {
    if n < 10 {
        (0x30 + n) as char
    } else {
        (0x41 + n - 10) as char
    }
}

/// A byte as a URL holds it.
pub open spec fn encoded_byte(b: u8) -> Seq<char> {
    if unreserved(b) {
        seq![b as char]
    } else {
        seq!['%', upper_hex(b as int / 16), upper_hex(b as int % 16)]
    }
}

/// Bytes as a URL holds them.
pub open spec fn encoded_bytes(bytes: Seq<u8>) -> Seq<char>
    decreases bytes.len(),
{
    if bytes.len() == 0 {
        Seq::empty()
    } else {
        encoded_bytes(bytes.drop_last()) + encoded_byte(bytes.last())
    }
}

/// Text as a URL holds it.
pub open spec fn percent_encoded(s: Seq<char>) -> Seq<char> {
    encoded_bytes(vstd::utf8::encode_utf8(s))
}

/// `urlencoding::encode`: each byte of the text in UTF-8 stands for itself if it is a letter, a
/// digit, `-`, `.`, `_` or `~`, and is written as `%` and two hexadecimal digits in upper case
/// if not.
#[verifier::external_body]
fn url_encode(s: &str) -> (encoded: String)
    ensures
        encoded@ == percent_encoded(s@),
{
    urlencoding::encode(s).into_owned()
}

// ---------------------------------------------------------------------------------------------
// The client
// ---------------------------------------------------------------------------------------------

/// What a client holds.
pub struct ClientView {
    pub token: Seq<char>,
    pub time_zone: Seq<char>,
    pub oid: Seq<char>,
    pub tid: Seq<char>,
}

/// A client of the chat hub.
pub struct SubstrateCopilotClient {
    token: String,
    time_zone: String,
    oid: String,
    tid: String,
}

/// The claims of a token that is there and is meant for Substrate, or what is said instead.
pub open spec fn usable_claims(token: Seq<char>) -> Result<JsonTree, Seq<char>> {
    if token.len() == 0 {
        Err(TOKEN_MISSING@)
    } else {
        match token_store::jwt_claims(token) {
            Err(message) => Err("Cannot decode access token: "@ + message),
            Ok(claims) => if token_store::substrate_claims(claims) {
                Ok(claims)
            } else {
                Err(TOKEN_FOREIGN@)
            },
        }
    }
}

/// When the claims expire; without an expiry they always have.
pub open spec fn expiry(claims: JsonTree) -> i64 {
    match claims.signed_member("exp"@) {
        Some(exp) => exp,
        None => 0,
    }
}

/// The client for a token and its claims at `now`, or why there is none.
pub open spec fn client_of(
    claims: JsonTree,
    token: Seq<char>,
    time_zone: Seq<char>,
    now: i64,
) -> Result<ClientView, Seq<char>> {
    if now > expiry(claims) {
        Err(TOKEN_EXPIRED@)
    } else {
        match (claims.text_member("oid"@), claims.text_member("tid"@)) {
            (None, _) => Err("missing oid claim"@),
            (Some(_), None) => Err("missing tid claim"@),
            (Some(oid), Some(tid)) => Ok(ClientView { token, time_zone, oid, tid }),
        }
    }
}

/// The client for a token at `now`, or why there is none.
pub open spec fn client_at(token: Seq<char>, time_zone: Seq<char>, now: i64) -> Result<
    ClientView,
    Seq<char>,
> {
    match usable_claims(token) {
        Ok(claims) => client_of(claims, token, time_zone, now),
        Err(message) => Err(message),
    }
}

/// The client for a token, by a clock that reads a time or cannot be read, or why there is none.
pub open spec fn client_by(token: Seq<char>, time_zone: Seq<char>, clock: Option<i64>) -> Result<
    ClientView,
    Seq<char>,
> {
    match (usable_claims(token), clock) {
        (Err(message), _) => Err(message),
        (Ok(_), None) => Err(CLOCK_UNREADABLE@),
        (Ok(claims), Some(now)) => client_of(claims, token, time_zone, now),
    }
}

/// `made` is the client, or the error, that is wanted.
pub open spec fn gives(
    made: Result<SubstrateCopilotClient, SubstrateCopilotError>,
    wanted: Result<ClientView, Seq<char>>,
) -> bool {
    match made {
        Ok(client) => wanted == Ok::<ClientView, Seq<char>>(client@),
        Err(e) => wanted == Err::<ClientView, Seq<char>>(e.0@),
    }
}

/// The address to connect to.
pub open spec fn address(
    client: ClientView,
    conv_id: Seq<char>,
    session_id: Seq<char>,
    req_id: Seq<char>,
) -> Seq<char> {
    WS_BASE@ + "/"@ + client.oid + "@"@ + client.tid + "?ClientRequestId="@ + req_id
        + "&X-SessionId="@ + session_id + "&ConversationId="@ + conv_id + "&access_token="@
        + percent_encoded(client.token) + "&variants="@ + VARIANTS@ + ADDRESS_END@
}

/// The options that each request asks for.
pub open spec fn options_sets_tree() -> JsonTree {
    JsonTree::Array(
        Seq::<JsonTree>::empty()
            .push(JsonTree::Str("search_result_progress_messages_with_search_queries"@))
            .push(JsonTree::Str("cwc_flux_image"@))
            .push(JsonTree::Str("cwc_code_interpreter"@))
            .push(JsonTree::Str("cwc_code_interpreter_amsfix"@))
            .push(JsonTree::Str("cwcfluxgptv"@))
            .push(JsonTree::Str("flux_v3_gptv_enable_upload_multi_image_in_turn_wo_ch"@))
            .push(JsonTree::Str("cwc_code_interpreter_citation_fix"@))
            .push(JsonTree::Str("code_interpreter_interactive_charts"@))
            .push(JsonTree::Str("cwc_code_interpreter_interactive_charts_inline_image"@))
            .push(JsonTree::Str("code_interpreter_matplotlib_patching"@))
            .push(JsonTree::Str("cwc_fileupload_odb"@))
            .push(JsonTree::Str("update_memory_plugin"@))
            .push(JsonTree::Str("add_custom_instructions"@))
            .push(JsonTree::Str("cwc_flux_v3"@))
            .push(JsonTree::Str("flux_v3_progress_messages"@))
            .push(JsonTree::Str("enable_batch_token_processing"@))
            .push(JsonTree::Str("enable_gg_gpt"@))
            .push(JsonTree::Str("flux_v3_image_gen_enable_dimensions"@))
            .push(JsonTree::Str("flux_v3_image_gen_enable_icon_dimensions"@))
            .push(JsonTree::Str("flux_v3_image_gen_enable_system_text_with_params"@))
            .push(JsonTree::Str("flux_v3_image_gen_enable_designer_dimensions_meta_prompting_in_system_prompts"@)),
    )
}

/// The kinds of message that each request admits.
pub open spec fn message_types_tree() -> JsonTree {
    JsonTree::Array(
        Seq::<JsonTree>::empty()
            .push(JsonTree::Str("Chat"@))
            .push(JsonTree::Str("Suggestion"@))
            .push(JsonTree::Str("InternalSearchQuery"@))
            .push(JsonTree::Str("Disengaged"@))
            .push(JsonTree::Str("InternalLoaderMessage"@))
            .push(JsonTree::Str("Progress"@))
            .push(JsonTree::Str("GeneratedCode"@))
            .push(JsonTree::Str("RenderCardRequest"@))
            .push(JsonTree::Str("AdsQuery"@))
            .push(JsonTree::Str("SemanticSerp"@))
            .push(JsonTree::Str("GenerateContentQuery"@))
            .push(JsonTree::Str("GenerateGraphicArt"@))
            .push(JsonTree::Str("SearchQuery"@))
            .push(JsonTree::Str("ConfirmationCard"@))
            .push(JsonTree::Str("AuthError"@))
            .push(JsonTree::Str("DeveloperLogs"@))
            .push(JsonTree::Str("TriggerPlugin"@))
            .push(JsonTree::Str("HintInvocation"@))
            .push(JsonTree::Str("MemoryUpdate"@))
            .push(JsonTree::Str("EndOfRequest"@))
            .push(JsonTree::Str("TriggerConfirmation"@))
            .push(JsonTree::Str("ResumeInvokeAction"@))
            .push(JsonTree::Str("ResumeUserInputRequest"@))
            .push(JsonTree::Str("TriggerUserInputRequest"@))
            .push(JsonTree::Str("EscapeHatch"@))
            .push(JsonTree::Str("TriggerPluginAuth"@))
            .push(JsonTree::Str("ResumePluginAuth"@))
            .push(JsonTree::Str("SideBySide"@))
            .push(JsonTree::Str("ReferencesListComplete"@))
            .push(JsonTree::Str("SwitchRespondingEndpoint"@)),
    )
}

/// The kinds of entity that a prompt may name.
pub open spec fn entity_types_tree() -> JsonTree {
    JsonTree::Array(
        Seq::<JsonTree>::empty()
            .push(JsonTree::Str("People"@))
            .push(JsonTree::Str("File"@))
            .push(JsonTree::Str("Event"@))
            .push(JsonTree::Str("Email"@))
            .push(JsonTree::Str("TeamsMessage"@)),
    )
}

/// What a request says of the program that sends it.
pub open spec fn client_info_tree(session_id: Seq<char>) -> JsonTree {
    JsonTree::Object(
        Map::<Seq<char>, JsonTree>::empty()
            .insert("clientPlatform"@, JsonTree::Str("mcmcopilot-web"@))
            .insert("clientAppName"@, JsonTree::Str("Office"@))
            .insert("clientEntrypoint"@, JsonTree::Str("mcmcopilot-officeweb"@))
            .insert("clientSessionId"@, JsonTree::Str(session_id))
            .insert("clientAppType"@, JsonTree::Str("Web"@))
            .insert("deviceOS"@, JsonTree::Str("Windows"@))
            .insert("deviceType"@, JsonTree::Str("Desktop"@)),
    )
}

/// What a request says of where it comes from.
pub open spec fn location_tree(time_zone: Seq<char>) -> JsonTree {
    JsonTree::Object(
        Map::<Seq<char>, JsonTree>::empty()
            .insert("timeZoneOffset"@, JsonTree::Int(9))
            .insert("timeZone"@, JsonTree::Str(time_zone)),
    )
}

/// The prompt of a request.
pub open spec fn message_tree(text: Seq<char>, req_id: Seq<char>, time_zone: Seq<char>) -> JsonTree {
    JsonTree::Object(
        Map::<Seq<char>, JsonTree>::empty()
            .insert("author"@, JsonTree::Str("user"@))
            .insert("inputMethod"@, JsonTree::Str("Keyboard"@))
            .insert("text"@, JsonTree::Str(text))
            .insert("entityAnnotationTypes"@, entity_types_tree())
            .insert("requestId"@, JsonTree::Str(req_id))
            .insert("locationInfo"@, location_tree(time_zone))
            .insert("locale"@, JsonTree::Str("en-us"@))
            .insert("messageType"@, JsonTree::Str("Chat"@))
            .insert("experienceType"@, JsonTree::Str("Default"@))
            .insert("adaptiveCards"@, JsonTree::Array(Seq::empty()))
            .insert("clientPreferences"@, JsonTree::Object(Map::empty())),
    )
}

/// The plugin that each request asks for.
pub open spec fn plugin_tree() -> JsonTree {
    JsonTree::Object(
        Map::<Seq<char>, JsonTree>::empty()
            .insert("Id"@, JsonTree::Str("BingWebSearch"@))
            .insert("Source"@, JsonTree::Str("BuiltIn"@)),
    )
}

/// What a request asks for.
pub open spec fn argument_tree(
    text: Seq<char>,
    session_id: Seq<char>,
    req_id: Seq<char>,
    is_start_of_session: bool,
    time_zone: Seq<char>,
) -> JsonTree {
    JsonTree::Object(
        Map::<Seq<char>, JsonTree>::empty()
            .insert("source"@, JsonTree::Str("officeweb"@))
            .insert("clientCorrelationId"@, JsonTree::Str(req_id))
            .insert("sessionId"@, JsonTree::Str(session_id))
            .insert("optionsSets"@, options_sets_tree())
            .insert("streamingMode"@, JsonTree::Str("ConciseWithPadding"@))
            .insert("spokenTextMode"@, JsonTree::Str("None"@))
            .insert("options"@, JsonTree::Object(Map::empty()))
            .insert("extraExtensionParameters"@, JsonTree::Object(Map::empty()))
            .insert("allowedMessageTypes"@, message_types_tree())
            .insert("sliceIds"@, JsonTree::Array(Seq::empty()))
            .insert("threadLevelGptId"@, JsonTree::Object(Map::empty()))
            .insert("traceId"@, JsonTree::Str(req_id))
            .insert("isStartOfSession"@, JsonTree::Bool(is_start_of_session))
            .insert("clientInfo"@, client_info_tree(session_id))
            .insert("message"@, message_tree(text, req_id, time_zone))
            .insert("plugins"@, JsonTree::Array(Seq::empty().push(plugin_tree())))
            .insert("isSbsSupported"@, JsonTree::Bool(true))
            .insert("tone"@, JsonTree::Str("Magic"@))
            .insert("renderReferencesBehindEOS"@, JsonTree::Bool(true)),
    )
}

/// The request for a reply to `text`.
pub open spec fn invoke_tree(
    text: Seq<char>,
    session_id: Seq<char>,
    req_id: Seq<char>,
    is_start_of_session: bool,
    time_zone: Seq<char>,
) -> JsonTree {
    JsonTree::Object(
        Map::<Seq<char>, JsonTree>::empty()
            .insert("arguments"@, JsonTree::Array(
                Seq::empty().push(
                    argument_tree(text, session_id, req_id, is_start_of_session, time_zone),
                ),
            ))
            .insert("invocationId"@, JsonTree::Str("0"@))
            .insert("target"@, JsonTree::Str("chat"@))
            .insert("type"@, JsonTree::Int(4)),
    )
}

/// The options that each request asks for.
fn options_sets() -> (json: Json)
    ensures
        json.tree() == options_sets_tree(),
{
    Json::array()
        .item(Json::text("search_result_progress_messages_with_search_queries"))
        .item(Json::text("cwc_flux_image"))
        .item(Json::text("cwc_code_interpreter"))
        .item(Json::text("cwc_code_interpreter_amsfix"))
        .item(Json::text("cwcfluxgptv"))
        .item(Json::text("flux_v3_gptv_enable_upload_multi_image_in_turn_wo_ch"))
        .item(Json::text("cwc_code_interpreter_citation_fix"))
        .item(Json::text("code_interpreter_interactive_charts"))
        .item(Json::text("cwc_code_interpreter_interactive_charts_inline_image"))
        .item(Json::text("code_interpreter_matplotlib_patching"))
        .item(Json::text("cwc_fileupload_odb"))
        .item(Json::text("update_memory_plugin"))
        .item(Json::text("add_custom_instructions"))
        .item(Json::text("cwc_flux_v3"))
        .item(Json::text("flux_v3_progress_messages"))
        .item(Json::text("enable_batch_token_processing"))
        .item(Json::text("enable_gg_gpt"))
        .item(Json::text("flux_v3_image_gen_enable_dimensions"))
        .item(Json::text("flux_v3_image_gen_enable_icon_dimensions"))
        .item(Json::text("flux_v3_image_gen_enable_system_text_with_params"))
        .item(Json::text("flux_v3_image_gen_enable_designer_dimensions_meta_prompting_in_system_prompts"))
}

/// The kinds of message that each request admits.
fn message_types() -> (json: Json)
    ensures
        json.tree() == message_types_tree(),
{
    Json::array()
        .item(Json::text("Chat"))
        .item(Json::text("Suggestion"))
        .item(Json::text("InternalSearchQuery"))
        .item(Json::text("Disengaged"))
        .item(Json::text("InternalLoaderMessage"))
        .item(Json::text("Progress"))
        .item(Json::text("GeneratedCode"))
        .item(Json::text("RenderCardRequest"))
        .item(Json::text("AdsQuery"))
        .item(Json::text("SemanticSerp"))
        .item(Json::text("GenerateContentQuery"))
        .item(Json::text("GenerateGraphicArt"))
        .item(Json::text("SearchQuery"))
        .item(Json::text("ConfirmationCard"))
        .item(Json::text("AuthError"))
        .item(Json::text("DeveloperLogs"))
        .item(Json::text("TriggerPlugin"))
        .item(Json::text("HintInvocation"))
        .item(Json::text("MemoryUpdate"))
        .item(Json::text("EndOfRequest"))
        .item(Json::text("TriggerConfirmation"))
        .item(Json::text("ResumeInvokeAction"))
        .item(Json::text("ResumeUserInputRequest"))
        .item(Json::text("TriggerUserInputRequest"))
        .item(Json::text("EscapeHatch"))
        .item(Json::text("TriggerPluginAuth"))
        .item(Json::text("ResumePluginAuth"))
        .item(Json::text("SideBySide"))
        .item(Json::text("ReferencesListComplete"))
        .item(Json::text("SwitchRespondingEndpoint"))
}

/// The kinds of entity that a prompt may name.
fn entity_types() -> (json: Json)
    ensures
        json.tree() == entity_types_tree(),
{
    Json::array()
        .item(Json::text("People"))
        .item(Json::text("File"))
        .item(Json::text("Event"))
        .item(Json::text("Email"))
        .item(Json::text("TeamsMessage"))
}

/// What a request says of the program that sends it.
fn client_info(session_id: &str) -> (json: Json)
    ensures
        json.tree() == client_info_tree(session_id@),
{
    Json::object()
        .with("clientPlatform", Json::text("mcmcopilot-web"))
        .with("clientAppName", Json::text("Office"))
        .with("clientEntrypoint", Json::text("mcmcopilot-officeweb"))
        .with("clientSessionId", Json::text(session_id))
        .with("clientAppType", Json::text("Web"))
        .with("deviceOS", Json::text("Windows"))
        .with("deviceType", Json::text("Desktop"))
}

/// What a request says of where it comes from.
fn location(time_zone: &str) -> (json: Json)
    ensures
        json.tree() == location_tree(time_zone@),
{
    Json::object()
        .with("timeZoneOffset", Json::integer(9))
        .with("timeZone", Json::text(time_zone))
}

/// The prompt of a request.
fn message(text: &str, req_id: &str, time_zone: &str) -> (json: Json)
    ensures
        json.tree() == message_tree(text@, req_id@, time_zone@),
{
    Json::object()
        .with("author", Json::text("user"))
        .with("inputMethod", Json::text("Keyboard"))
        .with("text", Json::text(text))
        .with("entityAnnotationTypes", entity_types())
        .with("requestId", Json::text(req_id))
        .with("locationInfo", location(time_zone))
        .with("locale", Json::text("en-us"))
        .with("messageType", Json::text("Chat"))
        .with("experienceType", Json::text("Default"))
        .with("adaptiveCards", Json::array())
        .with("clientPreferences", Json::object())
}

/// The plugin that each request asks for.
fn plugin() -> (json: Json)
    ensures
        json.tree() == plugin_tree(),
{
    Json::object()
        .with("Id", Json::text("BingWebSearch"))
        .with("Source", Json::text("BuiltIn"))
}

/// What a request asks for.
fn argument(
    text: &str,
    session_id: &str,
    req_id: &str,
    is_start_of_session: bool,
    time_zone: &str,
) -> (json: Json)
    ensures
        json.tree() == argument_tree(text@, session_id@, req_id@, is_start_of_session, time_zone@),
{
    Json::object()
        .with("source", Json::text("officeweb"))
        .with("clientCorrelationId", Json::text(req_id))
        .with("sessionId", Json::text(session_id))
        .with("optionsSets", options_sets())
        .with("streamingMode", Json::text("ConciseWithPadding"))
        .with("spokenTextMode", Json::text("None"))
        .with("options", Json::object())
        .with("extraExtensionParameters", Json::object())
        .with("allowedMessageTypes", message_types())
        .with("sliceIds", Json::array())
        .with("threadLevelGptId", Json::object())
        .with("traceId", Json::text(req_id))
        .with("isStartOfSession", Json::Bool(is_start_of_session))
        .with("clientInfo", client_info(session_id))
        .with("message", message(text, req_id, time_zone))
        .with("plugins", Json::array().item(plugin()))
        .with("isSbsSupported", Json::Bool(true))
        .with("tone", Json::text("Magic"))
        .with("renderReferencesBehindEOS", Json::Bool(true))
}

/// A prompt with the context that goes before it.
pub open spec fn combined(prompt: Seq<char>, context: Seq<Seq<char>>) -> Seq<char> {
    if context.len() == 0 {
        prompt
    } else {
        text::joined(context, "\n\n"@) + "\n\n---\n\n"@ + prompt
    }
}

/// A prompt with the context that goes before it.
pub fn combine_text(prompt: &str, context: &[String]) -> (combined_text: String)
    ensures
        combined_text@ == combined(prompt@, text::views(context@)),
{
    if context.len() == 0 {
        prompt.to_owned()
    } else {
        let mut all = join_text(context, "\n\n");
        all.append("\n\n---\n\n");
        all.append(prompt);
        all
    }
}

/// What is sent for one turn: where to connect, and the two messages.
pub struct TurnRequest {
    pub url: String,
    pub handshake: String,
    pub invoke: String,
}

/// `request` asks for a reply to `text` in the turn, under the request's name.
pub open spec fn asks(
    request: TurnRequest,
    client: ClientView,
    text: Seq<char>,
    turn: CopilotTurn,
    req_id: Seq<char>,
) -> bool {
    &&& request.url@ == address(client, turn.conversation_id@, turn.client_session_id@, req_id)
    &&& request.handshake@ == HANDSHAKE@.push(SIGNALR_SEP)
    &&& request.invoke@ == json::printed(
        invoke_tree(
            text,
            turn.client_session_id@,
            req_id,
            turn.is_start_of_session,
            client.time_zone,
        ),
    ).push(SIGNALR_SEP)
}

impl SubstrateCopilotClient {
    /// What the client holds.
    pub closed spec fn view(self) -> ClientView {
        ClientView {
            token: self.token@,
            time_zone: self.time_zone@,
            oid: self.oid@,
            tid: self.tid@,
        }
    }

    /// The claims of a token that is there and is meant for Substrate.
    fn claims(access_token: &str) -> (claims: Result<Json, SubstrateCopilotError>)
        ensures
            match claims {
                Ok(json) => usable_claims(access_token@) == Ok::<JsonTree, Seq<char>>(json.tree()),
                Err(e) => usable_claims(access_token@) == Err::<JsonTree, Seq<char>>(e.0@),
            },
    {
        if access_token.unicode_len() == 0 {
            return Err(SubstrateCopilotError(TOKEN_MISSING.to_owned()));
        }
        match decode_jwt_payload(access_token) {
            Err(reason) => {
                let mut message = "Cannot decode access token: ".to_owned();
                message.append(reason.as_str());
                Err(SubstrateCopilotError(message))
            },
            Ok(claims) => if is_substrate_token_claims(&claims) {
                Ok(claims)
            } else {
                Err(SubstrateCopilotError(TOKEN_FOREIGN.to_owned()))
            },
        }
    }

    /// The client for a token with the given claims.
    fn with_claims(claims: &Json, access_token: &str, time_zone: &str, now: i64) -> (client: Result<
        Self,
        SubstrateCopilotError,
    >)
        ensures
            gives(client, client_of(claims.tree(), access_token@, time_zone@, now)),
    {
        let exp: i64 = match claims.get_i64("exp") {
            Some(exp) => exp,
            None => 0,
        };
        if now > exp {
            return Err(SubstrateCopilotError(TOKEN_EXPIRED.to_owned()));
        }
        let oid = match claims.get_str("oid") {
            Some(oid) => oid.to_owned(),
            None => return Err(SubstrateCopilotError("missing oid claim".to_owned())),
        };
        let tid = match claims.get_str("tid") {
            Some(tid) => tid.to_owned(),
            None => return Err(SubstrateCopilotError("missing tid claim".to_owned())),
        };
        Ok(
            SubstrateCopilotClient {
                token: access_token.to_owned(),
                time_zone: time_zone.to_owned(),
                oid,
                tid,
            },
        )
    }

    /// The client for a token, as of `now`.
    pub fn new_at(access_token: &str, time_zone: &str, now: i64) -> (client: Result<
        Self,
        SubstrateCopilotError,
    >)
        ensures
            gives(client, client_at(access_token@, time_zone@, now)),
    {
        match Self::claims(access_token) {
            Ok(claims) => Self::with_claims(&claims, access_token, time_zone, now),
            Err(e) => Err(e),
        }
    }

    /// The client for a token, by what the clock reads.
    pub fn new_by(access_token: &str, time_zone: &str, clock: Option<i64>) -> (client: Result<
        Self,
        SubstrateCopilotError,
    >)
        ensures
            gives(client, client_by(access_token@, time_zone@, clock)),
    {
        match Self::claims(access_token) {
            Ok(claims) => match clock {
                Some(now) => Self::with_claims(&claims, access_token, time_zone, now),
                None => Err(SubstrateCopilotError(CLOCK_UNREADABLE.to_owned())),
            },
            Err(e) => Err(e),
        }
    }

    /// The client for a token, as of the time of the call: what `new_by` gives for what the clock
    /// reads then. Nothing is known of the clock, which may also fail; a token that is missing,
    /// cannot be decoded or is not meant for Substrate is refused at every time.
    pub fn new(access_token: &str, time_zone: &str) -> (client: Result<Self, SubstrateCopilotError>)
        ensures
            exists|clock: Option<i64>|
                gives(client, #[trigger] client_by(access_token@, time_zone@, clock)),
            usable_claims(access_token@) matches Err(message) ==> (client matches Err(e) && e.0@
                == message),
    {
        let clock: Option<i64> = match unix_now() {
            Ok(now) => Some(now),
            Err(_) => None,
        };
        let client = Self::new_by(access_token, time_zone, clock);
        assert(gives(client, client_by(access_token@, time_zone@, clock)));
        client
    }

    /// The address to connect to for one request of a conversation.
    pub fn ws_url(&self, conv_id: &str, session_id: &str, req_id: &str) -> (url: String)
        ensures
            url@ == address(self@, conv_id@, session_id@, req_id@),
    {
        let token = url_encode(self.token.as_str());
        let mut url = WS_BASE.to_owned();
        url.append("/");
        url.append(self.oid.as_str());
        url.append("@");
        url.append(self.tid.as_str());
        url.append("?ClientRequestId=");
        url.append(req_id);
        url.append("&X-SessionId=");
        url.append(session_id);
        url.append("&ConversationId=");
        url.append(conv_id);
        url.append("&access_token=");
        url.append(token.as_str());
        url.append("&variants=");
        url.append(VARIANTS);
        url.append(ADDRESS_END);
        url
    }

    /// The message that asks for a reply to `text`.
    pub fn chat_invoke(
        &self,
        text: &str,
        session_id: &str,
        req_id: &str,
        is_start_of_session: bool,
    ) -> (message: String)
        ensures
            message@ == json::printed(
                invoke_tree(text@, session_id@, req_id@, is_start_of_session, self@.time_zone),
            ).push(SIGNALR_SEP),
    {
        let payload = Json::object().with(
            "arguments",
            Json::array().item(
                argument(text, session_id, req_id, is_start_of_session, self.time_zone.as_str()),
            ),
        ).with("invocationId", Json::text("0")).with("target", Json::text("chat")).with(
            "type",
            Json::integer(4),
        );
        let mut message = print_json(&payload);
        message.push(SIGNALR_SEP);
        message
    }

    /// What is sent for a turn, under the given name of the request.
    pub fn chat_stream_for_turn(&self, text: &str, turn: &CopilotTurn, req_id: &str) -> (request:
        TurnRequest)
        ensures
            asks(request, self@, text@, *turn, req_id@),
    {
        let url = self.ws_url(
            turn.conversation_id.as_str(),
            turn.client_session_id.as_str(),
            req_id,
        );
        let mut handshake = HANDSHAKE.to_owned();
        handshake.push(SIGNALR_SEP);
        let invoke = self.chat_invoke(
            text,
            turn.client_session_id.as_str(),
            req_id,
            turn.is_start_of_session,
        );
        TurnRequest { url, handshake, invoke }
    }

    /// What is sent for a prompt with its context in a turn, under a new name of the request.
    pub fn chat_stream(&self, prompt: &str, additional_context: &[String], turn: &CopilotTurn) -> (
    request: TurnRequest)
        ensures
            exists|req_id: Seq<char>|
                session_store::uuid_text(req_id) && #[trigger] asks(
                    request,
                    self@,
                    combined(prompt@, text::views(additional_context@)),
                    *turn,
                    req_id,
                ),
    {
        let text = combine_text(prompt, additional_context);
        let req_id = fresh_uuid();
        self.chat_stream_for_turn(text.as_str(), turn, req_id.as_str())
    }

    /// The whole reply that a stream's items make: the chunks one after the other, or the first
    /// error.
    pub fn chat(items: Vec<Result<String, SubstrateCopilotError>>) -> (reply: Result<
        String,
        SubstrateCopilotError,
    >)
        ensures
            match reply {
                Ok(reply) => whole_reply(item_views(items@)) == Ok::<Seq<char>, Seq<char>>(reply@),
                Err(e) => whole_reply(item_views(items@)) == Err::<Seq<char>, Seq<char>>(e.0@),
            },
    {
        let ghost views = item_views(items@);
        let mut reply = String::new();
        assert(views.take(0) =~= Seq::empty());
        for item in it: items
            invariant
                it.seq() == items@,
                views == item_views(items@),
                whole_reply(views.take(it.index() as int)) == Ok::<Seq<char>, Seq<char>>(reply@),
        {
            let ghost i = it.index() as int;
            proof {
                assert(views.take(i + 1).drop_last() =~= views.take(i));
                assert(views[i] == item_view(items@[i]));
                lemma_first_error(views, i);
            }
            match item {
                Ok(chunk) => {
                    reply.append(chunk.as_str());
                },
                Err(e) => {
                    return Err(e);
                },
            }
        }
        assert(views.take(views.len() as int) =~= views);
        Ok(reply)
    }
}

// ---------------------------------------------------------------------------------------------
// The reply
// ---------------------------------------------------------------------------------------------

/// An item of a stream: a chunk, or an error's text.
pub open spec fn item_view(item: Result<String, SubstrateCopilotError>) -> Result<
    Seq<char>,
    Seq<char>,
> {
    match item {
        Ok(chunk) => Ok(chunk@),
        Err(e) => Err(e.0@),
    }
}

/// The items of a stream.
pub open spec fn item_views(items: Seq<Result<String, SubstrateCopilotError>>) -> Seq<
    Result<Seq<char>, Seq<char>>,
> {
    Seq::new(items.len(), |i: int| item_view(items[i]))
}

/// The chunks one after the other, or the first error.
pub open spec fn whole_reply(items: Seq<Result<Seq<char>, Seq<char>>>) -> Result<
    Seq<char>,
    Seq<char>,
>
    decreases items.len(),
{
    if items.len() == 0 {
        Ok(Seq::empty())
    } else {
        match (whole_reply(items.drop_last()), items.last()) {
            (Err(e), _) => Err(e),
            (Ok(_), Err(e)) => Err(e),
            (Ok(before), Ok(chunk)) => Ok(before + chunk),
        }
    }
}

/// An error at `at` that no error comes before is what the whole comes to.
proof fn lemma_first_error(items: Seq<Result<Seq<char>, Seq<char>>>, at: int)
    requires
        0 <= at < items.len(),
        whole_reply(items.take(at)) is Ok,
    ensures
        items[at] matches Err(e) ==> whole_reply(items) == Err::<Seq<char>, Seq<char>>(e),
    decreases items.len(),
{
    if at < items.len() - 1 {
        assert(items.drop_last().take(at) =~= items.take(at));
        lemma_first_error(items.drop_last(), at);
    } else {
        assert(items.drop_last() =~= items.take(at));
    }
}

/// What a connection comes to: the chunks of the reply, or the text of an error.
pub open spec fn outcome_items(outcome: Result<Seq<Seq<char>>, Seq<char>>) -> Seq<
    Result<Seq<char>, Seq<char>>,
> {
    match outcome {
        Ok(chunks) => Seq::new(chunks.len(), |i: int| Ok(chunks[i])),
        Err(message) => seq![Err(message)],
    }
}

/// The items of the stream for what a connection came to: each chunk, or the error alone.
pub fn stream_items(outcome: Result<Vec<String>, String>) -> (items: Vec<
    Result<String, SubstrateCopilotError>,
>)
    ensures
        item_views(items@) == outcome_items(
            match outcome {
                Ok(chunks) => Ok(text::views(chunks@)),
                Err(message) => Err(message@),
            },
        ),
{
    let mut items: Vec<Result<String, SubstrateCopilotError>> = Vec::new();
    match outcome {
        Ok(chunks) => {
            for chunk in it: chunks
                invariant
                    it.seq() == chunks@,
                    items.len() == it.index(),
                    forall|i: int|
                        0 <= i < items.len() ==> item_view(#[trigger] items@[i])
                            == Ok::<Seq<char>, Seq<char>>(chunks@[i]@),
            {
                items.push(Ok(chunk));
            }
            assert(item_views(items@) =~= outcome_items(Ok(text::views(chunks@))));
        },
        Err(message) => {
            items.push(Err(SubstrateCopilotError(message)));
            assert(item_views(items@) =~= outcome_items(Err(message@)));
        },
    }
    items
}

/// A frame of the connection.
pub enum Frame {
    Text(String),
    Binary(Vec<u8>),
    /// The hub closes the connection.
    Close,
    /// A frame that carries no message.
    Other,
}

/// What `String::from_utf8_lossy` makes of bytes.
pub uninterp spec fn lossy_text(bytes: Seq<u8>) -> Seq<char>;

/// `String::from_utf8_lossy`: the text of the bytes, with replacement characters where they are
/// not UTF-8. It depends on the bytes alone and is named `lossy_text`; bytes that are UTF-8
/// give the text that they encode.
#[verifier::external_body]
pub(crate) fn text_from_bytes(bytes: &[u8]) -> (s: String)
    ensures
        s@ == lossy_text(bytes@),
        vstd::utf8::valid_utf8(bytes@) ==> s@ == vstd::utf8::decode_utf8(bytes@),
{
    String::from_utf8_lossy(bytes).to_string()
}

/// What was received of a reply.
pub struct ReplyView {
    /// The reply as the latest message that held it whole has it.
    pub fallback: Seq<char>,
    /// Whether a piece of the reply was handed out.
    pub yielded: bool,
    /// What was handed out.
    pub chunks: Seq<Seq<char>>,
}

/// What was received of a reply.
pub struct Reply {
    pub fallback: String,
    pub yielded: bool,
    pub chunks: Vec<String>,
}

impl View for Reply {
    type V = ReplyView;

    open spec fn view(&self) -> ReplyView {
        ReplyView {
            fallback: self.fallback@,
            yielded: self.yielded,
            chunks: text::views(self.chunks@),
        }
    }
}

/// Nothing received.
pub open spec fn no_reply() -> ReplyView {
    ReplyView { fallback: Seq::empty(), yielded: false, chunks: Seq::empty() }
}

/// The text of the last entry that is not the user's.
pub open spec fn assistant_entry(entries: Seq<JsonTree>) -> Seq<char>
    decreases entries.len(),
{
    if entries.len() == 0 {
        Seq::empty()
    } else if entries.last().text_member("author"@) == Some("user"@) {
        assistant_entry(entries.drop_last())
    } else {
        match entries.last().text_member("text"@) {
            Some(text) => text,
            None => Seq::empty(),
        }
    }
}

/// The assistant's text in a list of messages, or in a single message.
pub open spec fn assistant_text(messages: JsonTree) -> Seq<char> {
    match messages {
        JsonTree::Array(entries) => assistant_entry(entries),
        other => assistant_entry(seq![other]),
    }
}

/// The whole text that was received, where nothing was handed out yet.
pub open spec fn held_back(r: ReplyView) -> Seq<Seq<char>> {
    if !r.yielded && r.fallback.len() > 0 {
        seq![r.fallback]
    } else {
        Seq::empty()
    }
}

/// The first argument of an update.
pub open spec fn first_argument(message: JsonTree) -> JsonTree {
    match message.member("arguments"@) {
        Some(JsonTree::Array(items)) if items.len() > 0 => items[0],
        _ => JsonTree::Object(Map::empty()),
    }
}

/// After a piece of the reply.
pub open spec fn after_delta(r: ReplyView, delta: Option<Seq<char>>) -> ReplyView {
    match delta {
        Some(piece) if piece.len() > 0 => ReplyView {
            fallback: r.fallback,
            yielded: true,
            chunks: (r.chunks + held_back(r)).push(piece),
        },
        _ => r,
    }
}

/// After messages that hold the reply whole.
pub open spec fn after_messages(r: ReplyView, messages: Option<JsonTree>) -> ReplyView {
    match messages {
        Some(messages) => ReplyView { fallback: assistant_text(messages), ..r },
        None => r,
    }
}

/// The messages of a completed item.
pub open spec fn item_messages(message: JsonTree) -> Option<JsonTree> {
    match message.member("item"@) {
        Some(item) => item.member("messages"@),
        None => None,
    }
}

/// After a message of the hub: type 1 updates the reply, type 2 holds it whole, type 3 ends it.
pub open spec fn after_message(r: ReplyView, message: JsonTree) -> ReplyView {
    let kind = message.signed_member("type"@);
    if kind == Some(1i64) && message.text_member("target"@) == Some("update"@) {
        let argument = first_argument(message);
        after_messages(
            after_delta(r, argument.text_member("writeAtCursor"@)),
            argument.member("messages"@),
        )
    } else if kind == Some(2i64) {
        after_messages(r, item_messages(message))
    } else if kind == Some(3i64) {
        ReplyView { chunks: r.chunks + held_back(r), ..r }
    } else {
        r
    }
}

/// The message that a part of a frame holds.
pub open spec fn part_message(part: Seq<char>) -> Option<JsonTree> {
    let part = text::trimmed(part);
    if part.len() == 0 {
        None
    } else {
        match json::parsed_text(part) {
            Ok(message) => Some(message),
            Err(_) => None,
        }
    }
}

/// The part holds the message that ends the reply.
pub open spec fn ends_reply(part: Seq<char>) -> bool {
    part_message(part) matches Some(message) && message.signed_member("type"@) == Some(3i64)
}

/// After the parts of a frame; those behind the end of the reply are not read.
pub open spec fn after_parts(r: ReplyView, parts: Seq<Seq<char>>) -> ReplyView
    decreases parts.len(),
{
    if parts.len() == 0 {
        r
    } else {
        let next = match part_message(parts[0]) {
            Some(message) => after_message(r, message),
            None => r,
        };
        if ends_reply(parts[0]) {
            next
        } else {
            after_parts(next, parts.skip(1))
        }
    }
}

/// The text that a frame carries.
pub open spec fn frame_text(frame: Frame) -> Option<Seq<char>> {
    match frame {
        Frame::Text(s) => Some(s@),
        Frame::Binary(bytes) => Some(lossy_text(bytes@)),
        _ => None,
    }
}

/// After a frame.
pub open spec fn after_frame(r: ReplyView, frame: Frame) -> ReplyView {
    match frame_text(frame) {
        Some(s) => after_parts(r, text::pieces(s, SIGNALR_SEP)),
        None => r,
    }
}

/// After the frames that come before the connection is closed.
pub open spec fn after_frames(r: ReplyView, frames: Seq<Frame>) -> ReplyView
    decreases frames.len(),
{
    if frames.len() == 0 || frames[0] is Close {
        r
    } else {
        after_frames(after_frame(r, frames[0]), frames.skip(1))
    }
}

/// The assistant's text in a list of messages, or in a single message: that of the last one that
/// is not the user's.
pub fn extract_assistant_text(msgs: &Json) -> (text: String)
    ensures
        text@ == assistant_text(msgs.tree()),
{
    match msgs.as_array() {
        Some(entries) => {
            let ghost all = json::trees(entries@);
            let mut at: usize = entries.len();
            assert(all.take(at as int) =~= all);
            while at > 0
                invariant
                    at <= entries@.len(),
                    all == json::trees(entries@),
                    assistant_text(msgs.tree()) == assistant_entry(all),
                    assistant_entry(all) == assistant_entry(all.take(at as int)),
                decreases at,
            {
                at = at - 1;
                proof {
                    assert(all.take(at + 1).drop_last() =~= all.take(at as int));
                    assert(all.take(at + 1).last() == entries@[at as int].tree());
                }
                if !is_user_entry(&entries[at]) {
                    return entry_text(&entries[at]);
                }
            }
            String::new()
        },
        None => {
            proof {
                let only = seq![msgs.tree()];
                assert(only.drop_last() =~= Seq::empty());
                reveal_with_fuel(assistant_entry, 2);
            }
            if is_user_entry(msgs) {
                String::new()
            } else {
                entry_text(msgs)
            }
        },
    }
}

/// Whether an entry is the user's.
fn is_user_entry(entry: &Json) -> (b: bool)
    ensures
        b == (entry.tree().text_member("author"@) == Some("user"@)),
{
    match entry.get_str("author") {
        Some(author) => same_text(author, "user"),
        None => false,
    }
}

/// The text of an entry.
fn entry_text(entry: &Json) -> (text: String)
    ensures
        text@ == match entry.tree().text_member("text"@) {
            Some(text) => text,
            None => Seq::empty(),
        },
{
    match entry.get_str("text") {
        Some(text) => text.to_owned(),
        None => String::new(),
    }
}

impl Reply {
    /// Nothing received.
    pub fn new() -> (reply: Self)
        ensures
            reply@ == no_reply(),
    {
        let reply = Reply { fallback: String::new(), yielded: false, chunks: Vec::new() };
        assert(text::views(reply.chunks@) =~= Seq::empty());
        reply
    }

    /// Hands the whole text out, where nothing was handed out yet.
    fn release(&mut self)
        ensures
            final(self)@ == (ReplyView { chunks: old(self)@.chunks + held_back(old(self)@), ..old(
                self,
            )@ }),
    {
        let ghost before = self@;
        if !self.yielded && self.fallback.as_str().unicode_len() > 0 {
            let whole = self.fallback.clone();
            self.chunks.push(whole);
        }
        assert(self@.chunks =~= before.chunks + held_back(before));
    }

    /// Takes a piece of the reply.
    fn take_delta(&mut self, delta: Option<&str>)
        ensures
            final(self)@ == after_delta(old(self)@, text::text_view(delta)),
    {
        if let Some(piece) = delta {
            if piece.unicode_len() > 0 {
                self.release();
                let ghost released = self@;
                self.yielded = true;
                self.chunks.push(piece.to_owned());
                assert(self@.chunks =~= released.chunks.push(piece@));
            }
        }
    }

    /// Takes messages that hold the reply whole.
    fn take_messages(&mut self, messages: Option<&Json>)
        ensures
            final(self)@ == after_messages(
                old(self)@,
                match messages {
                    Some(json) => Some(json.tree()),
                    None => None,
                },
            ),
    {
        if let Some(messages) = messages {
            self.fallback = extract_assistant_text(messages);
        }
    }

    /// Takes a message of the hub.
    pub fn take_message(&mut self, message: &Json)
        ensures
            final(self)@ == after_message(old(self)@, message.tree()),
    {
        if is_kind(message, 1) && is_update(message) {
            if let Some(argument) = argument_of(message) {
                self.take_delta(argument.get_str("writeAtCursor"));
                self.take_messages(argument.get("messages"));
            }
        } else if is_kind(message, 2) {
            let messages = match message.get("item") {
                Some(item) => item.get("messages"),
                None => None,
            };
            self.take_messages(messages);
        } else if is_kind(message, 3) {
            self.release();
        }
    }

    /// Takes the text of a frame: one message after the other, up to one that ends the reply.
    pub fn take_text(&mut self, text: &str)
        ensures
            final(self)@ == after_parts(old(self)@, text::pieces(text@, SIGNALR_SEP)),
    {
        let parts = split_text(text, SIGNALR_SEP);
        let ghost all = text::views(parts@);
        let ghost begin = self@;
        let mut at: usize = 0;
        assert(all.skip(0) =~= all);
        while at < parts.len()
            invariant
                at <= parts@.len(),
                all == text::views(parts@),
                begin == old(self)@,
                all == text::pieces(text@, SIGNALR_SEP),
                after_parts(begin, all) == after_parts(self@, all.skip(at as int)),
            decreases parts@.len() - at,
        {
            let ghost rest = all.skip(at as int);
            proof {
                assert(rest[0] == parts@[at as int]@);
                assert(rest.skip(1) =~= all.skip(at + 1));
            }
            let part = trim_text(parts[at].as_str());
            if part.as_str().unicode_len() > 0 {
                if let Ok(message) = parse_json(part.as_str()) {
                    self.take_message(&message);
                    if is_kind(&message, 3) {
                        return;
                    }
                }
            }
            at = at + 1;
        }
    }

    /// Takes a frame. Whether more may follow: not after the close of the connection.
    pub fn take_frame(&mut self, frame: &Frame) -> (more: bool)
        ensures
            final(self)@ == after_frame(old(self)@, *frame),
            more == !(*frame is Close),
    {
        match frame {
            Frame::Text(s) => {
                self.take_text(s.as_str());
                true
            },
            Frame::Binary(bytes) => {
                let s = text_from_bytes(bytes);
                self.take_text(s.as_str());
                true
            },
            Frame::Close => false,
            Frame::Other => true,
        }
    }

    /// Takes the frames that come before the connection is closed.
    pub fn take_frames(&mut self, frames: &[Frame])
        ensures
            final(self)@ == after_frames(old(self)@, frames@),
    {
        let ghost begin = self@;
        let mut at: usize = 0;
        assert(frames@.skip(0) =~= frames@);
        while at < frames.len()
            invariant
                at <= frames@.len(),
                begin == old(self)@,
                after_frames(begin, frames@) == after_frames(self@, frames@.skip(at as int)),
            decreases frames@.len() - at,
        {
            proof {
                assert(frames@.skip(at as int)[0] == frames@[at as int]);
                assert(frames@.skip(at as int).skip(1) =~= frames@.skip(at + 1));
            }
            if !self.take_frame(&frames[at]) {
                return;
            }
            at = at + 1;
        }
    }
}

/// Whether a message is of the given type.
fn is_kind(message: &Json, kind: i64) -> (b: bool)
    ensures
        b == (message.tree().signed_member("type"@) == Some(kind)),
{
    match message.get_i64("type") {
        Some(found) => found == kind,
        None => false,
    }
}

/// The first argument of a message.
fn argument_of(message: &Json) -> (argument: Option<&Json>)
    ensures
        match argument {
            Some(json) => first_argument(message.tree()) == json.tree(),
            None => first_argument(message.tree()) == JsonTree::Object(Map::empty()),
        },
{
    let arguments = match message.get("arguments") {
        Some(arguments) => arguments.as_array(),
        None => None,
    };
    match arguments {
        Some(items) => {
            assert(json::trees(items@).len() == items@.len());
            if items.len() > 0 {
                assert(json::trees(items@)[0] == items@[0].tree());
                Some(&items[0])
            } else {
                None
            }
        },
        None => None,
    }
}

/// Whether a message updates the reply.
fn is_update(message: &Json) -> (b: bool)
    ensures
        b == (message.tree().text_member("target"@) == Some("update"@)),
{
    match message.get_str("target") {
        Some(target) => same_text(target, "update"),
        None => false,
    }
}

// ---------------------------------------------------------------------------------------------
// Laws
// ---------------------------------------------------------------------------------------------

/// A character that an encoded text may hold.
pub open spec fn encoded_char(c: char) -> bool {
    c == '%' || (c as int <= 0xff && unreserved(c as u8))
}

/// Encoded bytes hold letters, digits, `-`, `.`, `_`, `~` and `%` alone.
proof fn lemma_encoded_bytes(bytes: Seq<u8>)
    ensures
        forall|i: int|
            0 <= i < encoded_bytes(bytes).len() ==> encoded_char(
                #[trigger] encoded_bytes(bytes)[i],
            ),
    decreases bytes.len(),
{
    if bytes.len() > 0 {
        let last = bytes.last();
        let front = encoded_bytes(bytes.drop_last());
        lemma_encoded_bytes(bytes.drop_last());
        assert forall|i: int| 0 <= i < encoded_bytes(bytes).len() implies encoded_char(
            #[trigger] encoded_bytes(bytes)[i],
        ) by {
            if i < front.len() {
                assert(encoded_bytes(bytes)[i] == front[i]);
            } else {
                assert(encoded_bytes(bytes)[i] == encoded_byte(last)[i - front.len()]);
            }
        }
    }
}

/// An encoded text holds letters, digits, `-`, `.`, `_`, `~` and `%` alone, so no character of a
/// token ends its place in an address.
pub proof fn law_encoded_text_is_plain(s: Seq<char>)
    ensures
        forall|i: int|
            0 <= i < percent_encoded(s).len() ==> encoded_char(#[trigger] percent_encoded(s)[i]),
{
    lemma_encoded_bytes(vstd::utf8::encode_utf8(s));
}

/// Bytes that stand for themselves encode to the characters they are.
proof fn lemma_plain_bytes(bytes: Seq<u8>)
    requires
        forall|i: int| 0 <= i < bytes.len() ==> unreserved(#[trigger] bytes[i]),
    ensures
        encoded_bytes(bytes) == Seq::new(bytes.len(), |i: int| bytes[i] as char),
    decreases bytes.len(),
{
    if bytes.len() > 0 {
        let front = bytes.drop_last();
        assert forall|i: int| 0 <= i < front.len() implies unreserved(#[trigger] front[i]) by {
            assert(bytes[i] == front[i]);
        }
        lemma_plain_bytes(front);
        assert(unreserved(bytes[bytes.len() - 1]));
    }
    assert(encoded_bytes(bytes) =~= Seq::new(bytes.len(), |i: int| bytes[i] as char));
}

/// A text of letters, digits, `-`, `.`, `_` and `~` stands in an address as it is.
pub proof fn law_plain_text_stays(s: Seq<char>)
    requires
        vstd::utf8::is_ascii_chars(s),
        forall|i: int| 0 <= i < s.len() ==> unreserved((#[trigger] s[i]) as u8),
    ensures
        percent_encoded(s) == s,
{
    vstd::utf8::is_ascii_chars_encode_utf8(s);
    let bytes = vstd::utf8::encode_utf8(s);
    assert forall|i: int| 0 <= i < bytes.len() implies unreserved(#[trigger] bytes[i]) by {
        assert(bytes[i] == s[i] as u8);
    }
    lemma_plain_bytes(bytes);
    assert(percent_encoded(s) =~= s) by {
        assert forall|i: int| 0 <= i < s.len() implies #[trigger] percent_encoded(s)[i] == s[i] by {
            assert(bytes[i] == s[i] as u8);
        }
    }
}

/// A token whose status is valid opens a client, where it names a user and a tenant.
pub proof fn law_valid_token_opens_client(
    token: Seq<char>,
    time_zone: Seq<char>,
    now: i64,
    claims: JsonTree,
)
    requires
        token_store::status_at(token, now).valid,
        token_store::jwt_claims(token) == Ok::<JsonTree, Seq<char>>(claims),
        claims.text_member("oid"@) is Some,
        claims.text_member("tid"@) is Some,
        i64::MIN <= expiry(claims) - now,
    ensures
        client_at(token, time_zone, now) is Ok,
{
    if token.len() == 0 {
        assert(text::pieces(token, '.').len() == 1);
    }
}

/// A part of a frame only adds to what was handed out, and adds no empty chunk.
proof fn lemma_message_adds(r: ReplyView, message: JsonTree)
    ensures
        r.chunks.is_prefix_of(after_message(r, message).chunks),
        no_empty_chunk(r) ==> no_empty_chunk(after_message(r, message)),
{
    let argument = first_argument(message);
    let delta = argument.text_member("writeAtCursor"@);
    assert(r.chunks.is_prefix_of(r.chunks + held_back(r)));
    assert(r.chunks.is_prefix_of(after_delta(r, delta).chunks));
    if no_empty_chunk(r) {
        assert forall|i: int| 0 <= i < (r.chunks + held_back(r)).len() implies (
        #[trigger] (r.chunks + held_back(r))[i]).len() > 0 by {
            if i < r.chunks.len() {
                assert((r.chunks + held_back(r))[i] == r.chunks[i]);
            }
        }
        assert(no_empty_chunk(after_delta(r, delta)));
    }
}

/// No chunk that was handed out is empty.
pub open spec fn no_empty_chunk(r: ReplyView) -> bool {
    forall|i: int| 0 <= i < r.chunks.len() ==> (#[trigger] r.chunks[i]).len() > 0
}

/// The parts of a frame only add to what was handed out, and add no empty chunk.
proof fn lemma_parts_add(r: ReplyView, parts: Seq<Seq<char>>)
    ensures
        r.chunks.is_prefix_of(after_parts(r, parts).chunks),
        no_empty_chunk(r) ==> no_empty_chunk(after_parts(r, parts)),
    decreases parts.len(),
{
    if parts.len() > 0 {
        if let Some(message) = part_message(parts[0]) {
            lemma_message_adds(r, message);
            lemma_parts_add(after_message(r, message), parts.skip(1));
        } else {
            lemma_parts_add(r, parts.skip(1));
        }
    }
}

/// What was handed out of a reply stays, whatever frames follow.
pub proof fn law_chunks_stay(r: ReplyView, frames: Seq<Frame>)
    ensures
        r.chunks.is_prefix_of(after_frames(r, frames).chunks),
    decreases frames.len(),
{
    if frames.len() > 0 && !(frames[0] is Close) {
        if let Some(s) = frame_text(frames[0]) {
            lemma_parts_add(r, text::pieces(s, SIGNALR_SEP));
        }
        law_chunks_stay(after_frame(r, frames[0]), frames.skip(1));
    }
}

/// No chunk of a reply is empty.
pub proof fn law_no_chunk_is_empty(r: ReplyView, frames: Seq<Frame>)
    requires
        no_empty_chunk(r),
    ensures
        no_empty_chunk(after_frames(r, frames)),
    decreases frames.len(),
{
    if frames.len() > 0 && !(frames[0] is Close) {
        if let Some(s) = frame_text(frames[0]) {
            lemma_parts_add(r, text::pieces(s, SIGNALR_SEP));
        }
        law_no_chunk_is_empty(after_frame(r, frames[0]), frames.skip(1));
    }
}

/// A reply of which no piece came is handed out whole when it ends; one of which a piece came is
/// not handed out again.
pub proof fn law_end_hands_out_what_is_left(r: ReplyView, message: JsonTree)
    requires
        message.signed_member("type"@) == Some(3i64),
    ensures
        r.yielded ==> after_message(r, message) == r,
        !r.yielded && r.fallback.len() > 0 ==> after_message(r, message).chunks == r.chunks.push(
            r.fallback,
        ),
{
    assert(r.chunks + Seq::<Seq<char>>::empty() =~= r.chunks);
    assert(r.chunks + seq![r.fallback] =~= r.chunks.push(r.fallback));
}

/// Frames behind the close of the connection do not matter.
pub proof fn law_nothing_follows_the_close(
    r: ReplyView,
    frames: Seq<Frame>,
    more: Seq<Frame>,
    close: Frame,
)
    requires
        close is Close,
    ensures
        after_frames(r, frames.push(close) + more) == after_frames(r, frames.push(close)),
    decreases frames.len(),
{
    if frames.len() == 0 {
        assert((frames.push(close) + more)[0] == close);
    } else {
        assert((frames.push(close) + more)[0] == frames[0]);
        assert(frames.push(close)[0] == frames[0]);
        assert((frames.push(close) + more).skip(1) =~= frames.skip(1).push(close) + more);
        assert(frames.push(close).skip(1) =~= frames.skip(1).push(close));
        law_nothing_follows_the_close(after_frame(r, frames[0]), frames.skip(1), more, close);
    }
}

/// The reply to a request that is not streamed is the chunks of the stream, one after the other.
pub proof fn law_reply_is_its_chunks(chunks: Seq<Seq<char>>)
    ensures
        whole_reply(outcome_items(Ok(chunks))) == Ok::<Seq<char>, Seq<char>>(
            text::joined(chunks, Seq::empty()),
        ),
    decreases chunks.len(),
{
    if chunks.len() > 0 {
        let front = chunks.drop_last();
        law_reply_is_its_chunks(front);
        assert(outcome_items(Ok(chunks)).drop_last() =~= outcome_items(Ok(front)));
        text::lemma_joined_push(front, chunks.last(), Seq::empty());
        assert(front.push(chunks.last()) =~= chunks);
        assert(text::joined(front, Seq::empty()) + Seq::<char>::empty() =~= text::joined(
            front,
            Seq::empty(),
        ));
    }
}

/// A connection that fails gives its error, whatever was received before.
pub proof fn law_failure_is_the_whole_reply(message: Seq<char>)
    ensures
        whole_reply(outcome_items(Err(message))) == Err::<Seq<char>, Seq<char>>(message),
{
    reveal_with_fuel(whole_reply, 2);
}

// ---------------------------------------------------------------------------------------------
// What a message of the hub does to the reply
// ---------------------------------------------------------------------------------------------

/// The piece of the reply that a message brings: what stands under `writeAtCursor` in the first
/// argument of an update. Other messages bring none.
pub open spec fn piece_of(message: JsonTree) -> Seq<char> {
    if message.signed_member("type"@) == Some(1i64) && message.text_member("target"@) == Some(
        "update"@,
    ) {
        match message.member("arguments"@) {
            Some(JsonTree::Array(items)) if items.len() > 0 => match items[0].text_member(
                "writeAtCursor"@,
            ) {
                Some(piece) => piece,
                None => Seq::empty(),
            },
            _ => Seq::empty(),
        }
    } else {
        Seq::empty()
    }
}

/// The messages of the conversation that a message brings: those of the first argument of an
/// update, or those of a completed item.
pub open spec fn conversation_of(message: JsonTree) -> Option<JsonTree> {
    if message.signed_member("type"@) == Some(1i64) && message.text_member("target"@) == Some(
        "update"@,
    ) {
        match message.member("arguments"@) {
            Some(JsonTree::Array(items)) if items.len() > 0 => items[0].member("messages"@),
            _ => None,
        }
    } else if message.signed_member("type"@) == Some(2i64) {
        match message.member("item"@) {
            Some(item) => item.member("messages"@),
            None => None,
        }
    } else {
        None
    }
}

/// A message that does not end the reply hands out its piece and nothing else: first what was
/// held back, where nothing was handed out yet, and then the piece as it came. Without a piece
/// nothing is handed out, however much of the reply the message holds.
pub proof fn law_only_pieces_are_handed_out(r: ReplyView, message: JsonTree)
    requires
        message.signed_member("type"@) != Some(3i64),
    ensures
        piece_of(message).len() == 0 ==> after_message(r, message).chunks == r.chunks
            && after_message(r, message).yielded == r.yielded,
        piece_of(message).len() > 0 ==> after_message(r, message).yielded,
        piece_of(message).len() > 0 && (r.yielded || r.fallback.len() == 0) ==> after_message(
            r,
            message,
        ).chunks == r.chunks.push(piece_of(message)),
        piece_of(message).len() > 0 && !r.yielded && r.fallback.len() > 0 ==> after_message(
            r,
            message,
        ).chunks == r.chunks.push(r.fallback).push(piece_of(message)),
{
    let none = Seq::<Seq<char>>::empty();
    assert(r.chunks + none =~= r.chunks);
    assert(r.chunks + seq![r.fallback] =~= r.chunks.push(r.fallback));
}

/// A message that holds a completed item never changes what was handed out.
pub proof fn law_completed_item_is_not_handed_out(r: ReplyView, message: JsonTree)
    requires
        message.signed_member("type"@) == Some(2i64),
    ensures
        after_message(r, message).chunks == r.chunks,
        after_message(r, message).yielded == r.yielded,
{
}

/// What is held back is the assistant's text in the latest messages that were brought: the text
/// of the last one that is not the user's.
pub proof fn law_latest_text_is_held_back(
    r: ReplyView,
    message: JsonTree,
    entries: Seq<JsonTree>,
    at: int,
)
    requires
        message.signed_member("type"@) != Some(3i64),
    ensures
        conversation_of(message) is None ==> after_message(r, message).fallback == r.fallback,
        conversation_of(message) == Some(JsonTree::Array(entries)) && 0 <= at < entries.len()
            && entries[at].text_member("author"@) != Some("user"@) && (forall|i: int|
            at < i < entries.len() ==> (#[trigger] entries[i]).text_member("author"@) == Some(
                "user"@,
            )) ==> after_message(r, message).fallback == match entries[at].text_member("text"@) {
            Some(text) => text,
            None => Seq::empty(),
        },
        conversation_of(message) == Some(JsonTree::Array(entries)) && (forall|i: int|
            0 <= i < entries.len() ==> (#[trigger] entries[i]).text_member("author"@) == Some(
                "user"@,
            )) ==> after_message(r, message).fallback == Seq::<char>::empty(),
        conversation_of(message) matches Some(single) ==> !(single is Array) ==> after_message(
            r,
            message,
        ).fallback == match single.text_member("text"@) {
            Some(text) if single.text_member("author"@) != Some("user"@) => text,
            _ => Seq::empty(),
        },
{
    if 0 <= at < entries.len() && entries[at].text_member("author"@) != Some("user"@) && (forall|
        i: int,
    |
        at < i < entries.len() ==> (#[trigger] entries[i]).text_member("author"@) == Some(
            "user"@,
        )) {
        lemma_assistant_entry(entries, at);
    }
    if forall|i: int|
        0 <= i < entries.len() ==> (#[trigger] entries[i]).text_member("author"@) == Some(
            "user"@,
        ) {
        lemma_assistant_entry(entries, -1);
    }
    if let Some(single) = conversation_of(message) {
        let only = seq![single];
        assert(only.drop_last() =~= Seq::empty());
        reveal_with_fuel(assistant_entry, 2);
    }
}

proof fn lemma_assistant_entry(entries: Seq<JsonTree>, at: int)
    requires
        -1 <= at < entries.len(),
        at >= 0 ==> entries[at].text_member("author"@) != Some("user"@),
        forall|i: int|
            at < i < entries.len() ==> (#[trigger] entries[i]).text_member("author"@) == Some(
                "user"@,
            ),
    ensures
        assistant_entry(entries) == if at >= 0 {
            match entries[at].text_member("text"@) {
                Some(text) => text,
                None => Seq::empty(),
            }
        } else {
            Seq::empty()
        },
    decreases entries.len(),
{
    if entries.len() > 0 && at < entries.len() - 1 {
        let rest = entries.drop_last();
        assert(entries[entries.len() - 1].text_member("author"@) == Some("user"@));
        assert forall|i: int| at < i < rest.len() implies (#[trigger] rest[i]).text_member(
            "author"@,
        ) == Some("user"@) by {
            assert(rest[i] == entries[i]);
        }
        lemma_assistant_entry(rest, at);
    }
}

/// The end of the reply hands out what is held back where no piece came, and nothing otherwise;
/// what is held back stays.
pub proof fn law_end_hands_out_at_most_one_text(r: ReplyView, message: JsonTree)
    requires
        message.signed_member("type"@) == Some(3i64),
    ensures
        after_message(r, message).fallback == r.fallback,
        after_message(r, message).yielded == r.yielded,
        r.yielded || r.fallback.len() == 0 ==> after_message(r, message).chunks == r.chunks,
        !r.yielded && r.fallback.len() > 0 ==> after_message(r, message).chunks == r.chunks.push(
            r.fallback,
        ),
{
    assert(r.chunks + Seq::<Seq<char>>::empty() =~= r.chunks);
    assert(r.chunks + seq![r.fallback] =~= r.chunks.push(r.fallback));
}

/// Messages of other types, and those that are not updates, change nothing.
pub proof fn law_other_messages_change_nothing(r: ReplyView, message: JsonTree)
    requires
        message.signed_member("type"@) != Some(2i64),
        message.signed_member("type"@) != Some(3i64),
        message.signed_member("type"@) != Some(1i64) || message.text_member("target"@) != Some(
            "update"@,
        ),
    ensures
        after_message(r, message) == r,
{
}

/// After several messages.
pub open spec fn after_all(r: ReplyView, messages: Seq<JsonTree>) -> ReplyView
    decreases messages.len(),
{
    if messages.len() == 0 {
        r
    } else {
        after_message(after_all(r, messages.drop_last()), messages.last())
    }
}

/// The pieces that messages bring, in order.
pub open spec fn pieces_of(messages: Seq<JsonTree>) -> Seq<Seq<char>>
    decreases messages.len(),
{
    if messages.len() == 0 {
        Seq::empty()
    } else if piece_of(messages.last()).len() > 0 {
        pieces_of(messages.drop_last()).push(piece_of(messages.last()))
    } else {
        pieces_of(messages.drop_last())
    }
}

/// A reply that comes in pieces is these pieces, each once and in order, whatever else the hub
/// sends; before the first of them stands at most the one text that was held back until then.
pub proof fn law_streamed_reply_is_its_pieces(messages: Seq<JsonTree>, first: int, end: JsonTree)
    requires
        forall|i: int|
            0 <= i < messages.len() ==> (#[trigger] messages[i]).signed_member("type"@) != Some(
                3i64,
            ),
        0 <= first < messages.len(),
        piece_of(messages[first]).len() > 0,
        forall|i: int| 0 <= i < first ==> piece_of(#[trigger] messages[i]).len() == 0,
        end.signed_member("type"@) == Some(3i64),
    ensures
        ({
            let held = after_all(no_reply(), messages.take(first)).fallback;
            let before = if held.len() > 0 {
                seq![held]
            } else {
                Seq::<Seq<char>>::empty()
            };
            &&& after_all(no_reply(), messages).chunks == before + pieces_of(messages)
            &&& after_all(no_reply(), messages.push(end)).chunks == before + pieces_of(messages)
        }),
{
    lemma_pieces_so_far(messages, first);
    assert(messages.push(end).drop_last() =~= messages);
    law_end_hands_out_at_most_one_text(after_all(no_reply(), messages), end);
}

proof fn lemma_pieces_so_far(messages: Seq<JsonTree>, first: int)
    requires
        forall|i: int|
            0 <= i < messages.len() ==> (#[trigger] messages[i]).signed_member("type"@) != Some(
                3i64,
            ),
        0 <= first < messages.len(),
        piece_of(messages[first]).len() > 0,
        forall|i: int| 0 <= i < first ==> piece_of(#[trigger] messages[i]).len() == 0,
    ensures
        after_all(no_reply(), messages).yielded,
        ({
            let held = after_all(no_reply(), messages.take(first)).fallback;
            after_all(no_reply(), messages).chunks == (if held.len() > 0 {
                seq![held]
            } else {
                Seq::<Seq<char>>::empty()
            }) + pieces_of(messages)
        }),
    decreases messages.len(),
{
    let rest = messages.drop_last();
    let r = after_all(no_reply(), rest);
    assert(messages[messages.len() - 1].signed_member("type"@) != Some(3i64));
    assert forall|i: int| 0 <= i < rest.len() implies (#[trigger] rest[i]).signed_member("type"@)
        != Some(3i64) by {
        assert(rest[i] == messages[i]);
    }
    law_only_pieces_are_handed_out(r, messages.last());
    let held = after_all(no_reply(), messages.take(first)).fallback;
    let before = if held.len() > 0 {
        seq![held]
    } else {
        Seq::<Seq<char>>::empty()
    };
    if first < messages.len() - 1 {
        assert forall|i: int| 0 <= i < first implies piece_of(#[trigger] rest[i]).len() == 0 by {
            assert(rest[i] == messages[i]);
        }
        assert(rest.take(first) =~= messages.take(first));
        lemma_pieces_so_far(rest, first);
        assert((before + pieces_of(rest)).push(piece_of(messages.last())) =~= before + pieces_of(
            rest,
        ).push(piece_of(messages.last())));
    } else {
        assert(rest =~= messages.take(first));
        lemma_no_pieces(rest);
        assert(after_all(no_reply(), messages).chunks =~= before + pieces_of(messages));
    }
}

/// A reply of which no piece came is handed out whole when it ends, once; where no text came
/// either, nothing is.
pub proof fn law_unstreamed_reply_comes_at_the_end(messages: Seq<JsonTree>, end: JsonTree)
    requires
        forall|i: int|
            0 <= i < messages.len() ==> (#[trigger] messages[i]).signed_member("type"@) != Some(
                3i64,
            ),
        forall|i: int| 0 <= i < messages.len() ==> piece_of(#[trigger] messages[i]).len() == 0,
        end.signed_member("type"@) == Some(3i64),
    ensures
        after_all(no_reply(), messages).chunks.len() == 0,
        after_all(no_reply(), messages.push(end)).chunks == if after_all(
            no_reply(),
            messages,
        ).fallback.len() > 0 {
            seq![after_all(no_reply(), messages).fallback]
        } else {
            Seq::<Seq<char>>::empty()
        },
{
    lemma_no_pieces(messages);
    assert(messages.push(end).drop_last() =~= messages);
    let r = after_all(no_reply(), messages);
    law_end_hands_out_at_most_one_text(r, end);
    assert(Seq::<Seq<char>>::empty().push(r.fallback) =~= seq![r.fallback]);
}

proof fn lemma_no_pieces(messages: Seq<JsonTree>)
    requires
        forall|i: int|
            0 <= i < messages.len() ==> (#[trigger] messages[i]).signed_member("type"@) != Some(
                3i64,
            ),
        forall|i: int| 0 <= i < messages.len() ==> piece_of(#[trigger] messages[i]).len() == 0,
    ensures
        after_all(no_reply(), messages).chunks == Seq::<Seq<char>>::empty(),
        !after_all(no_reply(), messages).yielded,
        pieces_of(messages) == Seq::<Seq<char>>::empty(),
    decreases messages.len(),
{
    if messages.len() > 0 {
        let rest = messages.drop_last();
        assert(messages[messages.len() - 1].signed_member("type"@) != Some(3i64));
        assert(piece_of(messages[messages.len() - 1]).len() == 0);
        assert forall|i: int| 0 <= i < rest.len() implies (#[trigger] rest[i]).signed_member(
            "type"@,
        ) != Some(3i64) && piece_of(rest[i]).len() == 0 by {
            assert(rest[i] == messages[i]);
            assert(piece_of(messages[i]).len() == 0);
        }
        lemma_no_pieces(rest);
        law_only_pieces_are_handed_out(after_all(no_reply(), rest), messages.last());
    }
}

/// A frame with one message does what the message does; a blank one and one that cannot be read
/// do nothing.
pub proof fn law_frame_does_what_its_message_does(r: ReplyView, frame: Frame, s: Seq<char>)
    requires
        frame_text(frame) == Some(s),
        !s.contains('\u{1e}'),
    ensures
        text::trimmed(s).len() == 0 ==> after_frame(r, frame) == r,
        text::trimmed(s).len() > 0 ==> after_frame(r, frame) == match json::parsed_text(
            text::trimmed(s),
        ) {
            Ok(message) => after_message(r, message),
            Err(_) => r,
        },
{
    text::lemma_first_of(s, SIGNALR_SEP);
    if text::first_of(s, SIGNALR_SEP) < s.len() {
        assert(s[text::first_of(s, SIGNALR_SEP)] == SIGNALR_SEP);
    }
    let parts = text::pieces(s, SIGNALR_SEP);
    assert(parts =~= seq![s]);
    assert(parts.skip(1) =~= Seq::empty());
    reveal_with_fuel(after_parts, 2);
}

/// Messages may come in one frame or in several: what stands before a separator and what follows
/// it do what two frames would do. Only behind a message that ends the reply the rest of the frame
/// is not read.
pub proof fn law_frames_may_be_put_together(
    r: ReplyView,
    whole: Frame,
    first: Frame,
    second: Frame,
    a: Seq<char>,
    b: Seq<char>,
)
    requires
        frame_text(first) == Some(a),
        frame_text(second) == Some(b),
        frame_text(whole) == Some(a.push('\u{1e}') + b),
        !a.contains('\u{1e}'),
    ensures
        after_frame(r, whole) == if text::trimmed(a).len() > 0 && (json::parsed_text(
            text::trimmed(a),
        ) matches Ok(message) && message.signed_member("type"@) == Some(3i64)) {
            after_frame(r, first)
        } else {
            after_frame(after_frame(r, first), second)
        },
{
    text::lemma_first_of(a, SIGNALR_SEP);
    if text::first_of(a, SIGNALR_SEP) < a.len() {
        assert(a[text::first_of(a, SIGNALR_SEP)] == SIGNALR_SEP);
    }
    assert(text::pieces(a, SIGNALR_SEP) =~= seq![a]);
    text::lemma_pieces_concat(a, b, SIGNALR_SEP);
    let all = seq![a] + text::pieces(b, SIGNALR_SEP);
    assert(all.skip(1) =~= text::pieces(b, SIGNALR_SEP));
    assert(seq![a].skip(1) =~= Seq::empty());
    reveal_with_fuel(after_parts, 2);
}

/// Text and binary frames carry their text; the others carry none and change nothing.
pub proof fn law_frames_carry_their_text(r: ReplyView, frame: Frame)
    ensures
        frame matches Frame::Text(s) ==> frame_text(frame) == Some(s@),
        frame matches Frame::Binary(bytes) ==> frame_text(frame) == Some(lossy_text(bytes@)),
        frame is Other || frame is Close ==> after_frame(r, frame) == r,
{
}

/// Frames are taken one after the other: those before the close of the connection, however they
/// are grouped.
pub proof fn law_frames_are_taken_in_turn(r: ReplyView, frames: Seq<Frame>, more: Seq<Frame>)
    requires
        forall|i: int| 0 <= i < frames.len() ==> !(#[trigger] frames[i] is Close),
    ensures
        after_frames(r, frames + more) == after_frames(after_frames(r, frames), more),
        frames.len() == 1 ==> after_frames(r, frames) == after_frame(r, frames[0]),
    decreases frames.len(),
{
    if frames.len() == 0 {
        assert(frames + more =~= more);
    } else {
        assert(!(frames[0] is Close));
        let rest = frames.skip(1);
        assert forall|i: int| 0 <= i < rest.len() implies !(#[trigger] rest[i] is Close) by {
            assert(rest[i] == frames[i + 1]);
        }
        assert((frames + more)[0] == frames[0]);
        assert((frames + more).skip(1) =~= rest + more);
        law_frames_are_taken_in_turn(after_frame(r, frames[0]), rest, more);
    }
}

/// The reply to a request that is not streamed is every chunk in order, or the first error where
/// there is one.
pub proof fn law_first_error_is_the_reply(items: Seq<Result<Seq<char>, Seq<char>>>, at: int)
    requires
        0 <= at <= items.len(),
        forall|i: int| 0 <= i < at ==> (#[trigger] items[i]) is Ok,
        at < items.len() ==> items[at] is Err,
    ensures
        at < items.len() ==> whole_reply(items) == Err::<Seq<char>, Seq<char>>(items[at]->Err_0),
        at == items.len() ==> whole_reply(items) == Ok::<Seq<char>, Seq<char>>(
            text::joined(Seq::new(items.len(), |i: int| items[i]->Ok_0), Seq::empty()),
        ),
{
    let chunks = Seq::new(at as nat, |i: int| items[i]->Ok_0);
    law_reply_is_its_chunks(chunks);
    assert forall|i: int| 0 <= i < at implies outcome_items(Ok(chunks))[i] == #[trigger] items.take(
        at,
    )[i] by {
        assert(items[i] is Ok);
    }
    assert(outcome_items(Ok(chunks)) =~= items.take(at));
    if at < items.len() {
        lemma_first_error(items, at);
    } else {
        assert(items.take(at) =~= items);
        assert(chunks =~= Seq::new(items.len(), |i: int| items[i]->Ok_0));
    }
}

// ---------------------------------------------------------------------------------------------
// What is sent
// ---------------------------------------------------------------------------------------------

/// Context goes before the prompt, block by block, with a rule between the last block and the
/// prompt; a prompt without context is sent as it is.
pub proof fn law_context_goes_before_the_prompt(
    prompt: Seq<char>,
    block: Seq<char>,
    context: Seq<Seq<char>>,
)
    ensures
        combined(prompt, Seq::empty()) == prompt,
        combined(prompt, seq![block]) == block + "\n\n---\n\n"@ + prompt,
        context.len() > 0 ==> combined(prompt, seq![block] + context) == block + "\n\n"@
            + combined(prompt, context),
{
    assert(text::joined(seq![block], "\n\n"@) =~= block);
    if context.len() > 0 {
        text::lemma_joined_first(block, context, "\n\n"@);
        assert(combined(prompt, seq![block] + context) =~= block + "\n\n"@ + combined(
            prompt,
            context,
        ));
    }
}

/// The only argument of a request.
pub open spec fn only_argument(tree: JsonTree) -> Option<JsonTree> {
    match tree.member("arguments"@) {
        Some(JsonTree::Array(arguments)) if arguments.len() == 1 => Some(arguments[0]),
        _ => None,
    }
}

/// The chat message of a turn asks for one reply and carries what the turn is: its text, its
/// session, the name of the request, whether it starts the session, and the client's time zone.
pub proof fn law_chat_message_carries_the_turn(
    text: Seq<char>,
    session_id: Seq<char>,
    req_id: Seq<char>,
    is_start_of_session: bool,
    time_zone: Seq<char>,
)
    ensures
        ({
            let tree = invoke_tree(text, session_id, req_id, is_start_of_session, time_zone);
            &&& tree.text_member("target"@) == Some("chat"@)
            &&& tree.text_member("invocationId"@) == Some("0"@)
            &&& tree.signed_member("type"@) == Some(4i64)
            &&& only_argument(tree) matches Some(argument)
            &&& argument.member("isStartOfSession"@) == Some(JsonTree::Bool(is_start_of_session))
            &&& argument.text_member("sessionId"@) == Some(session_id)
            &&& argument.text_member("clientCorrelationId"@) == Some(req_id)
            &&& argument.text_member("traceId"@) == Some(req_id)
            &&& argument.text_member("source"@) == Some("officeweb"@)
            &&& argument.text_member("streamingMode"@) == Some("ConciseWithPadding"@)
            &&& argument.member("clientInfo"@) matches Some(info)
            &&& info.text_member("clientSessionId"@) == Some(session_id)
            &&& argument.member("message"@) matches Some(message)
            &&& message.text_member("text"@) == Some(text)
            &&& message.text_member("author"@) == Some("user"@)
            &&& message.text_member("messageType"@) == Some("Chat"@)
            &&& message.text_member("requestId"@) == Some(req_id)
            &&& message.member("locationInfo"@) matches Some(location)
            &&& location.text_member("timeZone"@) == Some(time_zone)
        }),
{
    lemma_message_names();
    lemma_argument_names();
    reveal_strlit("arguments");
    reveal_strlit("invocationId");
    reveal_strlit("target");
    reveal_strlit("type");
    let arguments = Seq::<JsonTree>::empty().push(
        argument_tree(text, session_id, req_id, is_start_of_session, time_zone),
    );
    let argument = argument_tree(text, session_id, req_id, is_start_of_session, time_zone);
    let tree = invoke_tree(text, session_id, req_id, is_start_of_session, time_zone);
    assert(arguments.len() == 1 && arguments[0] == argument);
    assert("arguments"@.len() == 9 && "invocationId"@.len() == 12);
    assert("target"@.len() == 6 && "type"@.len() == 4);
    assert(tree.member("arguments"@) == Some(JsonTree::Array(arguments)));
    assert(tree.member("type"@) == Some(JsonTree::Int(4)));
    assert(argument.member("isStartOfSession"@) == Some(JsonTree::Bool(is_start_of_session)));
    assert(argument.member("clientInfo"@) == Some(client_info_tree(session_id)));
    assert(argument.member("message"@) == Some(message_tree(text, req_id, time_zone)));
    assert(message_tree(text, req_id, time_zone).member("locationInfo"@) == Some(
        location_tree(time_zone),
    ));
}

/// The names of a request's argument differ.
proof fn lemma_argument_names()
    ensures
        "source"@.len() == 6,
        "clientCorrelationId"@.len() == 19,
        "sessionId"@.len() == 9,
        "optionsSets"@.len() == 11,
        "streamingMode"@.len() == 13,
        "spokenTextMode"@.len() == 14,
        "options"@.len() == 7,
        "extraExtensionParameters"@.len() == 24,
        "allowedMessageTypes"@.len() == 19,
        "sliceIds"@.len() == 8,
        "threadLevelGptId"@.len() == 16,
        "traceId"@.len() == 7,
        "isStartOfSession"@.len() == 16,
        "clientInfo"@.len() == 10,
        "message"@.len() == 7,
        "plugins"@.len() == 7,
        "isSbsSupported"@.len() == 14,
        "tone"@.len() == 4,
        "renderReferencesBehindEOS"@.len() == 25,
        "clientCorrelationId"@ != "allowedMessageTypes"@,
        "traceId"@ != "message"@,
        "traceId"@ != "plugins"@,
        "message"@ != "plugins"@,
{
    reveal_strlit("source");
    reveal_strlit("clientCorrelationId");
    reveal_strlit("sessionId");
    reveal_strlit("optionsSets");
    reveal_strlit("streamingMode");
    reveal_strlit("spokenTextMode");
    reveal_strlit("options");
    reveal_strlit("extraExtensionParameters");
    reveal_strlit("allowedMessageTypes");
    reveal_strlit("sliceIds");
    reveal_strlit("threadLevelGptId");
    reveal_strlit("traceId");
    reveal_strlit("isStartOfSession");
    reveal_strlit("clientInfo");
    reveal_strlit("message");
    reveal_strlit("plugins");
    reveal_strlit("isSbsSupported");
    reveal_strlit("tone");
    reveal_strlit("renderReferencesBehindEOS");
    assert("clientCorrelationId"@[0] == 'c');
    assert("allowedMessageTypes"@[0] == 'a');
    assert("traceId"@[0] == 't');
    assert("message"@[0] == 'm');
    assert("plugins"@[0] == 'p');
}

/// The names of a prompt, of where it comes from and of who sends it differ.
proof fn lemma_message_names()
    ensures
        "author"@.len() == 6,
        "inputMethod"@.len() == 11,
        "text"@.len() == 4,
        "entityAnnotationTypes"@.len() == 21,
        "requestId"@.len() == 9,
        "locationInfo"@.len() == 12,
        "locale"@.len() == 6,
        "messageType"@.len() == 11,
        "experienceType"@.len() == 14,
        "adaptiveCards"@.len() == 13,
        "clientPreferences"@.len() == 17,
        "author"@ != "locale"@,
        "timeZoneOffset"@.len() == 14,
        "timeZone"@.len() == 8,
        "clientSessionId"@.len() == 15,
        "clientAppType"@.len() == 13,
        "deviceOS"@.len() == 8,
        "deviceType"@.len() == 10,
{
    reveal_strlit("author");
    reveal_strlit("inputMethod");
    reveal_strlit("text");
    reveal_strlit("entityAnnotationTypes");
    reveal_strlit("requestId");
    reveal_strlit("locationInfo");
    reveal_strlit("locale");
    reveal_strlit("messageType");
    reveal_strlit("experienceType");
    reveal_strlit("adaptiveCards");
    reveal_strlit("clientPreferences");
    reveal_strlit("timeZoneOffset");
    reveal_strlit("timeZone");
    reveal_strlit("clientSessionId");
    reveal_strlit("clientAppType");
    reveal_strlit("deviceOS");
    reveal_strlit("deviceType");
    assert("author"@[0] == 'a');
    assert("locale"@[0] == 'l');
}

/// Of the turns that a conversation reserves, the first alone is sent as the start of a session;
/// each is sent in the conversation's session.
pub proof fn law_only_the_first_turn_is_sent_as_a_start(
    before: session_store::PersistentSession,
    turn: CopilotTurn,
    after: session_store::PersistentSession,
    request: TurnRequest,
    client: ClientView,
    text: Seq<char>,
    req_id: Seq<char>,
)
    requires
        session_store::reserves(before, turn, after),
        asks(request, client, text, turn, req_id),
    ensures
        exists|tree: JsonTree|
            {
                &&& request.invoke@ == #[trigger] json::printed(tree).push('\u{1e}')
                &&& only_argument(tree) matches Some(argument)
                &&& argument.member("isStartOfSession"@) == Some(
                    JsonTree::Bool(before.turn_count == 0),
                )
                &&& argument.text_member("sessionId"@) == Some(before.client_session_id@)
                &&& argument.member("message"@) matches Some(message)
                &&& message.text_member("text"@) == Some(text)
            },
{
    let tree = invoke_tree(
        text,
        turn.client_session_id@,
        req_id,
        turn.is_start_of_session,
        client.time_zone,
    );
    law_chat_message_carries_the_turn(
        text,
        turn.client_session_id@,
        req_id,
        turn.is_start_of_session,
        client.time_zone,
    );
    assert(request.invoke@ == json::printed(tree).push('\u{1e}'));
}

/// An address holds the parameter `name` with this value, and another one follows.
pub open spec fn has_parameter(url: Seq<char>, name: Seq<char>, value: Seq<char>) -> bool {
    exists|before: Seq<char>, after: Seq<char>|
        url == #[trigger] (before + name + "="@ + value + "&"@ + after)
}

/// The address of a turn leads to the hub, under the user and the tenant of the client, and names
/// the request, the session and the conversation of the turn; the client's token is encoded in
/// it.
pub proof fn law_address_names_the_turn(
    client: ClientView,
    conv_id: Seq<char>,
    session_id: Seq<char>,
    req_id: Seq<char>,
)
    ensures
        text::begins_with(
            address(client, conv_id, session_id, req_id),
            "wss://substrate.office.com/m365Copilot/Chathub/"@ + client.oid + "@"@ + client.tid
                + "?"@,
        ),
        has_parameter(
            address(client, conv_id, session_id, req_id),
            "?ClientRequestId"@,
            req_id,
        ),
        has_parameter(address(client, conv_id, session_id, req_id), "&X-SessionId"@, session_id),
        has_parameter(address(client, conv_id, session_id, req_id), "&ConversationId"@, conv_id),
        has_parameter(
            address(client, conv_id, session_id, req_id),
            "&access_token"@,
            percent_encoded(client.token),
        ),
{
    lemma_address_start(client, conv_id, session_id, req_id);
    let head = WS_BASE@ + "/"@ + client.oid + "@"@ + client.tid;
    let by_variants = "&variants="@ + (VARIANTS@ + ADDRESS_END@);
    let token = percent_encoded(client.token);
    let by_token = "&access_token="@ + token + by_variants;
    let by_conv = "&ConversationId="@ + conv_id + by_token;
    let by_session = "&X-SessionId="@ + session_id + by_conv;
    lemma_address_parts(client, conv_id, session_id, req_id);
    reveal_strlit("?ClientRequestId");
    reveal_strlit("?ClientRequestId=");
    reveal_strlit("&X-SessionId");
    reveal_strlit("&X-SessionId=");
    reveal_strlit("&ConversationId");
    reveal_strlit("&ConversationId=");
    reveal_strlit("&access_token");
    reveal_strlit("&access_token=");
    reveal_strlit("&variants=");
    reveal_strlit("=");
    assert("?ClientRequestId="@ =~= "?ClientRequestId"@ + "="@);
    assert("&X-SessionId="@ =~= "&X-SessionId"@ + "="@);
    assert("&ConversationId="@ =~= "&ConversationId"@ + "="@);
    assert("&access_token="@ =~= "&access_token"@ + "="@);
    assert(by_variants[0] == '&' && by_token[0] == '&' && by_conv[0] == '&' && by_session[0]
        == '&');
    let to_session = head + ("?ClientRequestId="@ + req_id);
    let to_conv = to_session + ("&X-SessionId="@ + session_id);
    let to_token = to_conv + ("&ConversationId="@ + conv_id);
    lemma_parameter(head, "?ClientRequestId"@, req_id, by_session);
    lemma_parameter(to_session, "&X-SessionId"@, session_id, by_conv);
    lemma_parameter(to_conv, "&ConversationId"@, conv_id, by_token);
    lemma_parameter(to_token, "&access_token"@, token, by_variants);
}

/// A parameter is found where it stands.
proof fn lemma_parameter(before: Seq<char>, name: Seq<char>, value: Seq<char>, rest: Seq<char>)
    requires
        rest.len() > 0,
        rest[0] == '&',
    ensures
        has_parameter(before + ((name + "="@) + value + rest), name, value),
{
    reveal_strlit("&");
    let after = rest.skip(1);
    assert(rest =~= "&"@ + after);
    assert(before + ((name + "="@) + value + rest) =~= before + name + "="@ + value + "&"@ + after);
}

/// An address begins with the hub, the user and the tenant.
proof fn lemma_address_start(
    client: ClientView,
    conv_id: Seq<char>,
    session_id: Seq<char>,
    req_id: Seq<char>,
)
    ensures
        text::begins_with(
            address(client, conv_id, session_id, req_id),
            "wss://substrate.office.com/m365Copilot/Chathub/"@ + client.oid + "@"@ + client.tid
                + "?"@,
        ),
{
    let url = address(client, conv_id, session_id, req_id);
    lemma_address_parts(client, conv_id, session_id, req_id);
    reveal_strlit("wss://substrate.office.com/m365Copilot/Chathub/");
    reveal_strlit("wss://substrate.office.com/m365Copilot/Chathub");
    reveal_strlit("/");
    reveal_strlit("?");
    reveal_strlit("?ClientRequestId=");
    assert(WS_BASE@ + "/"@ =~= "wss://substrate.office.com/m365Copilot/Chathub/"@);
    let head = WS_BASE@ + "/"@ + client.oid + "@"@ + client.tid;
    assert("?ClientRequestId="@.take(1) =~= "?"@);
    let tail = url.skip(head.len() as int);
    assert(tail[0] == '?');
    assert(url.take(head.len() as int + 1) =~= head + "?"@);
}

/// An address from each of its parameters on.
proof fn lemma_address_parts(
    client: ClientView,
    conv_id: Seq<char>,
    session_id: Seq<char>,
    req_id: Seq<char>,
)
    ensures
        ({
            let url = address(client, conv_id, session_id, req_id);
            let head = WS_BASE@ + "/"@ + client.oid + "@"@ + client.tid;
            let by_variants = "&variants="@ + (VARIANTS@ + ADDRESS_END@);
            let by_token = "&access_token="@ + percent_encoded(client.token) + by_variants;
            let by_conv = "&ConversationId="@ + conv_id + by_token;
            let by_session = "&X-SessionId="@ + session_id + by_conv;
            let to_session = head + ("?ClientRequestId="@ + req_id);
            let to_conv = to_session + ("&X-SessionId="@ + session_id);
            let to_token = to_conv + ("&ConversationId="@ + conv_id);
            &&& url == head + ("?ClientRequestId="@ + req_id + by_session)
            &&& url == to_session + ("&X-SessionId="@ + session_id + by_conv)
            &&& url == to_conv + ("&ConversationId="@ + conv_id + by_token)
            &&& url == to_token + ("&access_token="@ + percent_encoded(client.token) + by_variants)
        }),
{
    let url = address(client, conv_id, session_id, req_id);
    let token = percent_encoded(client.token);
    let head = WS_BASE@ + "/"@ + client.oid + "@"@ + client.tid;
    let by_variants = "&variants="@ + (VARIANTS@ + ADDRESS_END@);
    let by_token = "&access_token="@ + token + by_variants;
    let by_conv = "&ConversationId="@ + conv_id + by_token;
    let by_session = "&X-SessionId="@ + session_id + by_conv;
    let to_session = head + ("?ClientRequestId="@ + req_id);
    let to_conv = to_session + ("&X-SessionId="@ + session_id);
    let to_token = to_conv + ("&ConversationId="@ + conv_id);
    assert(url =~= to_token + by_token);
    assert(to_token + by_token =~= to_conv + by_conv);
    assert(to_conv + by_conv =~= to_session + by_session);
    assert(to_session + by_session =~= head + ("?ClientRequestId="@ + req_id + by_session));
}

/// A client is opened exactly for a token that is there, can be decoded, is meant for Substrate,
/// has not expired, and names a user and a tenant. It holds that token, these names and the time
/// zone that it was given.
pub proof fn law_client_is_opened_for_a_usable_token(
    token: Seq<char>,
    time_zone: Seq<char>,
    now: i64,
)
    ensures
        client_at(token, time_zone, now) is Ok <==> {
            &&& token.len() > 0
            &&& token_store::jwt_claims(token) matches Ok(claims)
            &&& claims.text_member("aud"@) matches Some(audience)
            &&& text::begins_with(audience, "https://substrate.office.com/"@)
            &&& match claims.signed_member("exp"@) {
                Some(exp) => now <= exp,
                None => now <= 0,
            }
            &&& claims.text_member("oid"@) is Some
            &&& claims.text_member("tid"@) is Some
        },
        client_at(token, time_zone, now) matches Ok(client) ==> {
            &&& client.token == token
            &&& client.time_zone == time_zone
            &&& token_store::jwt_claims(token) matches Ok(claims)
            &&& claims.text_member("oid"@) == Some(client.oid)
            &&& claims.text_member("tid"@) == Some(client.tid)
        },
        client_by(token, time_zone, Some(now)) == client_at(token, time_zone, now),
        client_by(token, time_zone, None) is Err,
{
}

/// What a request asks for has these members and no others.
pub proof fn law_argument_has_its_members(
    text: Seq<char>,
    session_id: Seq<char>,
    req_id: Seq<char>,
    is_start_of_session: bool,
    time_zone: Seq<char>,
)
    ensures
        ({
            let tree = argument_tree(text, session_id, req_id, is_start_of_session, time_zone);
            let plugins = tree.at("plugins"@);
            &&& tree.names() == set![
                "source"@,
                "clientCorrelationId"@,
                "sessionId"@,
                "optionsSets"@,
                "streamingMode"@,
                "spokenTextMode"@,
                "options"@,
                "extraExtensionParameters"@,
                "allowedMessageTypes"@,
                "sliceIds"@,
                "threadLevelGptId"@,
                "traceId"@,
                "isStartOfSession"@,
                "clientInfo"@,
                "message"@,
                "plugins"@,
                "isSbsSupported"@,
                "tone"@,
                "renderReferencesBehindEOS"@,
            ]
            &&& tree.at("source"@) == JsonTree::Str("officeweb"@)
            &&& tree.at("clientCorrelationId"@) == JsonTree::Str(req_id)
            &&& tree.at("sessionId"@) == JsonTree::Str(session_id)
            &&& tree.at("optionsSets"@) == options_sets_tree()
            &&& tree.at("streamingMode"@) == JsonTree::Str("ConciseWithPadding"@)
            &&& tree.at("spokenTextMode"@) == JsonTree::Str("None"@)
            &&& tree.at("options"@) == JsonTree::Object(Map::empty())
            &&& tree.at("extraExtensionParameters"@) == JsonTree::Object(Map::empty())
            &&& tree.at("allowedMessageTypes"@) == message_types_tree()
            &&& tree.at("sliceIds"@) == JsonTree::Array(Seq::empty())
            &&& tree.at("threadLevelGptId"@) == JsonTree::Object(Map::empty())
            &&& tree.at("traceId"@) == JsonTree::Str(req_id)
            &&& tree.at("isStartOfSession"@) == JsonTree::Bool(is_start_of_session)
            &&& tree.at("clientInfo"@) == client_info_tree(session_id)
            &&& tree.at("message"@) == message_tree(text, req_id, time_zone)
            &&& plugins.length() == 1
            &&& plugins.item_at(0) == plugin_tree()
            &&& tree.at("isSbsSupported"@) == JsonTree::Bool(true)
            &&& tree.at("tone"@) == JsonTree::Str("Magic"@)
            &&& tree.at("renderReferencesBehindEOS"@) == JsonTree::Bool(true)
        }),
        ({
            let tree = plugin_tree();
            &&& tree.names() == set!["Id"@, "Source"@]
            &&& tree.at("Id"@) == JsonTree::Str("BingWebSearch"@)
            &&& tree.at("Source"@) == JsonTree::Str("BuiltIn"@)
        }),
{
    lemma_request_names();
}

/// The prompt of a request, where it comes from and who sends it have these members and no others.
pub proof fn law_prompt_has_its_members(
    text: Seq<char>,
    session_id: Seq<char>,
    req_id: Seq<char>,
    is_start_of_session: bool,
    time_zone: Seq<char>,
)
    ensures
        ({
            let tree = message_tree(text, req_id, time_zone);
            &&& tree.names() == set![
                "author"@,
                "inputMethod"@,
                "text"@,
                "entityAnnotationTypes"@,
                "requestId"@,
                "locationInfo"@,
                "locale"@,
                "messageType"@,
                "experienceType"@,
                "adaptiveCards"@,
                "clientPreferences"@,
            ]
            &&& tree.at("author"@) == JsonTree::Str("user"@)
            &&& tree.at("inputMethod"@) == JsonTree::Str("Keyboard"@)
            &&& tree.at("text"@) == JsonTree::Str(text)
            &&& tree.at("entityAnnotationTypes"@) == entity_types_tree()
            &&& tree.at("requestId"@) == JsonTree::Str(req_id)
            &&& tree.at("locationInfo"@) == location_tree(time_zone)
            &&& tree.at("locale"@) == JsonTree::Str("en-us"@)
            &&& tree.at("messageType"@) == JsonTree::Str("Chat"@)
            &&& tree.at("experienceType"@) == JsonTree::Str("Default"@)
            &&& tree.at("adaptiveCards"@) == JsonTree::Array(Seq::empty())
            &&& tree.at("clientPreferences"@) == JsonTree::Object(Map::empty())
        }),
        ({
            let tree = location_tree(time_zone);
            &&& tree.names() == set!["timeZoneOffset"@, "timeZone"@]
            &&& tree.at("timeZoneOffset"@) == JsonTree::Int(9)
            &&& tree.at("timeZone"@) == JsonTree::Str(time_zone)
        }),
        ({
            let tree = client_info_tree(session_id);
            &&& tree.names() == set![
                "clientPlatform"@,
                "clientAppName"@,
                "clientEntrypoint"@,
                "clientSessionId"@,
                "clientAppType"@,
                "deviceOS"@,
                "deviceType"@,
            ]
            &&& tree.at("clientPlatform"@) == JsonTree::Str("mcmcopilot-web"@)
            &&& tree.at("clientAppName"@) == JsonTree::Str("Office"@)
            &&& tree.at("clientEntrypoint"@) == JsonTree::Str("mcmcopilot-officeweb"@)
            &&& tree.at("clientSessionId"@) == JsonTree::Str(session_id)
            &&& tree.at("clientAppType"@) == JsonTree::Str("Web"@)
            &&& tree.at("deviceOS"@) == JsonTree::Str("Windows"@)
            &&& tree.at("deviceType"@) == JsonTree::Str("Desktop"@)
        }),
{
    lemma_request_names();
}

/// Each request asks for the same options, admits the same kinds of message and names the same kinds
/// of entity.
pub proof fn law_requests_ask_for_the_same()
    ensures
        ({
            let tree = options_sets_tree();
            &&& tree.length() == 21
            &&& tree.item_at(0) == JsonTree::Str("search_result_progress_messages_with_search_queries"@)
            &&& tree.item_at(1) == JsonTree::Str("cwc_flux_image"@)
            &&& tree.item_at(2) == JsonTree::Str("cwc_code_interpreter"@)
            &&& tree.item_at(3) == JsonTree::Str("cwc_code_interpreter_amsfix"@)
            &&& tree.item_at(4) == JsonTree::Str("cwcfluxgptv"@)
            &&& tree.item_at(5) == JsonTree::Str("flux_v3_gptv_enable_upload_multi_image_in_turn_wo_ch"@)
            &&& tree.item_at(6) == JsonTree::Str("cwc_code_interpreter_citation_fix"@)
            &&& tree.item_at(7) == JsonTree::Str("code_interpreter_interactive_charts"@)
            &&& tree.item_at(8) == JsonTree::Str("cwc_code_interpreter_interactive_charts_inline_image"@)
            &&& tree.item_at(9) == JsonTree::Str("code_interpreter_matplotlib_patching"@)
            &&& tree.item_at(10) == JsonTree::Str("cwc_fileupload_odb"@)
            &&& tree.item_at(11) == JsonTree::Str("update_memory_plugin"@)
            &&& tree.item_at(12) == JsonTree::Str("add_custom_instructions"@)
            &&& tree.item_at(13) == JsonTree::Str("cwc_flux_v3"@)
            &&& tree.item_at(14) == JsonTree::Str("flux_v3_progress_messages"@)
            &&& tree.item_at(15) == JsonTree::Str("enable_batch_token_processing"@)
            &&& tree.item_at(16) == JsonTree::Str("enable_gg_gpt"@)
            &&& tree.item_at(17) == JsonTree::Str("flux_v3_image_gen_enable_dimensions"@)
            &&& tree.item_at(18) == JsonTree::Str("flux_v3_image_gen_enable_icon_dimensions"@)
            &&& tree.item_at(19) == JsonTree::Str("flux_v3_image_gen_enable_system_text_with_params"@)
            &&& tree.item_at(20) == JsonTree::Str("flux_v3_image_gen_enable_designer_dimensions_meta_prompting_in_system_prompts"@)
        }),
        ({
            let tree = message_types_tree();
            &&& tree.length() == 30
            &&& tree.item_at(0) == JsonTree::Str("Chat"@)
            &&& tree.item_at(1) == JsonTree::Str("Suggestion"@)
            &&& tree.item_at(2) == JsonTree::Str("InternalSearchQuery"@)
            &&& tree.item_at(3) == JsonTree::Str("Disengaged"@)
            &&& tree.item_at(4) == JsonTree::Str("InternalLoaderMessage"@)
            &&& tree.item_at(5) == JsonTree::Str("Progress"@)
            &&& tree.item_at(6) == JsonTree::Str("GeneratedCode"@)
            &&& tree.item_at(7) == JsonTree::Str("RenderCardRequest"@)
            &&& tree.item_at(8) == JsonTree::Str("AdsQuery"@)
            &&& tree.item_at(9) == JsonTree::Str("SemanticSerp"@)
            &&& tree.item_at(10) == JsonTree::Str("GenerateContentQuery"@)
            &&& tree.item_at(11) == JsonTree::Str("GenerateGraphicArt"@)
            &&& tree.item_at(12) == JsonTree::Str("SearchQuery"@)
            &&& tree.item_at(13) == JsonTree::Str("ConfirmationCard"@)
            &&& tree.item_at(14) == JsonTree::Str("AuthError"@)
            &&& tree.item_at(15) == JsonTree::Str("DeveloperLogs"@)
            &&& tree.item_at(16) == JsonTree::Str("TriggerPlugin"@)
            &&& tree.item_at(17) == JsonTree::Str("HintInvocation"@)
            &&& tree.item_at(18) == JsonTree::Str("MemoryUpdate"@)
            &&& tree.item_at(19) == JsonTree::Str("EndOfRequest"@)
            &&& tree.item_at(20) == JsonTree::Str("TriggerConfirmation"@)
            &&& tree.item_at(21) == JsonTree::Str("ResumeInvokeAction"@)
            &&& tree.item_at(22) == JsonTree::Str("ResumeUserInputRequest"@)
            &&& tree.item_at(23) == JsonTree::Str("TriggerUserInputRequest"@)
            &&& tree.item_at(24) == JsonTree::Str("EscapeHatch"@)
            &&& tree.item_at(25) == JsonTree::Str("TriggerPluginAuth"@)
            &&& tree.item_at(26) == JsonTree::Str("ResumePluginAuth"@)
            &&& tree.item_at(27) == JsonTree::Str("SideBySide"@)
            &&& tree.item_at(28) == JsonTree::Str("ReferencesListComplete"@)
            &&& tree.item_at(29) == JsonTree::Str("SwitchRespondingEndpoint"@)
        }),
        ({
            let tree = entity_types_tree();
            &&& tree.length() == 5
            &&& tree.item_at(0) == JsonTree::Str("People"@)
            &&& tree.item_at(1) == JsonTree::Str("File"@)
            &&& tree.item_at(2) == JsonTree::Str("Event"@)
            &&& tree.item_at(3) == JsonTree::Str("Email"@)
            &&& tree.item_at(4) == JsonTree::Str("TeamsMessage"@)
        }),
{
}

/// The names of all that a request holds differ.
proof fn lemma_request_names()
    ensures
        "clientPlatform"@.len() == 14,
        "clientAppName"@.len() == 13,
        "clientEntrypoint"@.len() == 16,
        "clientSessionId"@.len() == 15,
        "clientAppType"@.len() == 13,
        "deviceOS"@.len() == 8,
        "deviceType"@.len() == 10,
        "timeZoneOffset"@.len() == 14,
        "timeZone"@.len() == 8,
        "author"@.len() == 6,
        "inputMethod"@.len() == 11,
        "text"@.len() == 4,
        "entityAnnotationTypes"@.len() == 21,
        "requestId"@.len() == 9,
        "locationInfo"@.len() == 12,
        "locale"@.len() == 6,
        "messageType"@.len() == 11,
        "experienceType"@.len() == 14,
        "adaptiveCards"@.len() == 13,
        "clientPreferences"@.len() == 17,
        "Id"@.len() == 2,
        "Source"@.len() == 6,
        "source"@.len() == 6,
        "clientCorrelationId"@.len() == 19,
        "sessionId"@.len() == 9,
        "optionsSets"@.len() == 11,
        "streamingMode"@.len() == 13,
        "spokenTextMode"@.len() == 14,
        "options"@.len() == 7,
        "extraExtensionParameters"@.len() == 24,
        "allowedMessageTypes"@.len() == 19,
        "sliceIds"@.len() == 8,
        "threadLevelGptId"@.len() == 16,
        "traceId"@.len() == 7,
        "isStartOfSession"@.len() == 16,
        "clientInfo"@.len() == 10,
        "message"@.len() == 7,
        "plugins"@.len() == 7,
        "isSbsSupported"@.len() == 14,
        "tone"@.len() == 4,
        "renderReferencesBehindEOS"@.len() == 25,
        "clientPlatform"@ != "timeZoneOffset"@,
        "clientPlatform"@ != "experienceType"@,
        "clientPlatform"@ != "spokenTextMode"@,
        "clientPlatform"@ != "isSbsSupported"@,
        "clientAppName"@ != "clientAppType"@,
        "clientAppName"@ != "adaptiveCards"@,
        "clientAppName"@ != "streamingMode"@,
        "clientEntrypoint"@ != "threadLevelGptId"@,
        "clientEntrypoint"@ != "isStartOfSession"@,
        "clientAppType"@ != "adaptiveCards"@,
        "clientAppType"@ != "streamingMode"@,
        "deviceOS"@ != "timeZone"@,
        "deviceOS"@ != "sliceIds"@,
        "deviceType"@ != "clientInfo"@,
        "timeZoneOffset"@ != "experienceType"@,
        "timeZoneOffset"@ != "spokenTextMode"@,
        "timeZoneOffset"@ != "isSbsSupported"@,
        "timeZone"@ != "sliceIds"@,
        "author"@ != "locale"@,
        "author"@ != "Source"@,
        "author"@ != "source"@,
        "inputMethod"@ != "messageType"@,
        "inputMethod"@ != "optionsSets"@,
        "text"@ != "tone"@,
        "requestId"@ != "sessionId"@,
        "locale"@ != "Source"@,
        "locale"@ != "source"@,
        "messageType"@ != "optionsSets"@,
        "experienceType"@ != "spokenTextMode"@,
        "experienceType"@ != "isSbsSupported"@,
        "adaptiveCards"@ != "streamingMode"@,
        "Source"@ != "source"@,
        "clientCorrelationId"@ != "allowedMessageTypes"@,
        "spokenTextMode"@ != "isSbsSupported"@,
        "options"@ != "traceId"@,
        "options"@ != "message"@,
        "options"@ != "plugins"@,
        "threadLevelGptId"@ != "isStartOfSession"@,
        "traceId"@ != "message"@,
        "traceId"@ != "plugins"@,
        "message"@ != "plugins"@,
{
    reveal_strlit("clientPlatform");
    reveal_strlit("clientAppName");
    reveal_strlit("clientEntrypoint");
    reveal_strlit("clientSessionId");
    reveal_strlit("clientAppType");
    reveal_strlit("deviceOS");
    reveal_strlit("deviceType");
    reveal_strlit("timeZoneOffset");
    reveal_strlit("timeZone");
    reveal_strlit("author");
    reveal_strlit("inputMethod");
    reveal_strlit("text");
    reveal_strlit("entityAnnotationTypes");
    reveal_strlit("requestId");
    reveal_strlit("locationInfo");
    reveal_strlit("locale");
    reveal_strlit("messageType");
    reveal_strlit("experienceType");
    reveal_strlit("adaptiveCards");
    reveal_strlit("clientPreferences");
    reveal_strlit("Id");
    reveal_strlit("Source");
    reveal_strlit("source");
    reveal_strlit("clientCorrelationId");
    reveal_strlit("sessionId");
    reveal_strlit("optionsSets");
    reveal_strlit("streamingMode");
    reveal_strlit("spokenTextMode");
    reveal_strlit("options");
    reveal_strlit("extraExtensionParameters");
    reveal_strlit("allowedMessageTypes");
    reveal_strlit("sliceIds");
    reveal_strlit("threadLevelGptId");
    reveal_strlit("traceId");
    reveal_strlit("isStartOfSession");
    reveal_strlit("clientInfo");
    reveal_strlit("message");
    reveal_strlit("plugins");
    reveal_strlit("isSbsSupported");
    reveal_strlit("tone");
    reveal_strlit("renderReferencesBehindEOS");
    assert("clientPlatform"@[0] == 'c');
    assert("timeZoneOffset"@[0] == 't');
    assert("experienceType"@[0] == 'e');
    assert("spokenTextMode"@[0] == 's');
    assert("isSbsSupported"@[0] == 'i');
    assert("clientAppName"@[9] == 'N');
    assert("clientAppType"@[9] == 'T');
    assert("clientAppName"@[0] == 'c');
    assert("adaptiveCards"@[0] == 'a');
    assert("streamingMode"@[0] == 's');
    assert("clientEntrypoint"@[0] == 'c');
    assert("threadLevelGptId"@[0] == 't');
    assert("isStartOfSession"@[0] == 'i');
    assert("clientAppType"@[0] == 'c');
    assert("deviceOS"@[0] == 'd');
    assert("timeZone"@[0] == 't');
    assert("sliceIds"@[0] == 's');
    assert("deviceType"@[0] == 'd');
    assert("clientInfo"@[0] == 'c');
    assert("author"@[0] == 'a');
    assert("locale"@[0] == 'l');
    assert("Source"@[0] == 'S');
    assert("source"@[0] == 's');
    assert("inputMethod"@[0] == 'i');
    assert("messageType"@[0] == 'm');
    assert("optionsSets"@[0] == 'o');
    assert("text"@[1] == 'e');
    assert("tone"@[1] == 'o');
    assert("requestId"@[0] == 'r');
    assert("sessionId"@[0] == 's');
    assert("clientCorrelationId"@[0] == 'c');
    assert("allowedMessageTypes"@[0] == 'a');
    assert("options"@[0] == 'o');
    assert("traceId"@[0] == 't');
    assert("message"@[0] == 'm');
    assert("plugins"@[0] == 'p');
}

/// The items of a stream are shown one for one: chunks by their text, failures by their message.
pub proof fn law_items_are_shown_one_for_one(
    items: Seq<Result<String, SubstrateCopilotError>>,
    i: int,
    client: SubstrateCopilotClient,
    failure: SubstrateCopilotError,
    wanted: Result<ClientView, Seq<char>>,
)
    requires
        0 <= i < items.len(),
    ensures
        item_views(items).len() == items.len(),
        items[i] matches Ok(chunk) ==> item_views(items)[i] == Ok::<Seq<char>, Seq<char>>(chunk@),
        items[i] matches Err(e) ==> item_views(items)[i] == Err::<Seq<char>, Seq<char>>(e.0@),
        gives(Ok(client), wanted) <==> wanted == Ok::<ClientView, Seq<char>>(client@),
        gives(Err(failure), wanted) <==> wanted == Err::<ClientView, Seq<char>>(failure.0@),
{
}

} // verus!
