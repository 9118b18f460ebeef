//! Turning OpenAI, Responses and Anthropic requests into a prompt with context.
use vstd::prelude::*;
use vstd::string::*;

use crate::json::{self, print_json, Json, JsonTree};
use crate::models::{
    AnthropicMessage, AnthropicMessagesRequest, ContentPart, MessageContent, OpenAIChatRequest,
    OpenAIMessage, OpenAIResponsesRequest, ResponsesInput, TranslatedRequest, Translation,
};
use crate::text::{self, join_text, part_of, same_text, trim_text, upper_text};

verus! {

// ---------------------------------------------------------------------------------------------
// What a translation is
// ---------------------------------------------------------------------------------------------

/// The text of one part: that of a `text` part, nothing of any other.
pub open spec fn part_text(part: ContentPart) -> Seq<char> {
    match part.text {
        Some(s) if part.part_type@ == "text"@ => s@,
        _ => Seq::empty(),
    }
}

/// The texts of `parts`, one after the other.
pub open spec fn parts_text(parts: Seq<ContentPart>) -> Seq<char>
    decreases parts.len(),
{
    if parts.len() == 0 {
        Seq::empty()
    } else {
        parts_text(parts.drop_last()) + part_text(parts.last())
    }
}

/// The text of a message's content.
pub open spec fn content_text(content: MessageContent) -> Seq<char> {
    match content {
        MessageContent::Text(s) => s@,
        MessageContent::Parts(parts) => parts_text(parts@),
    }
}

/// The text of one part of a Responses item: that of a `text` or `input_text` part.
pub open spec fn item_part_text(part: JsonTree) -> Seq<char> {
    let kind = part.text_member("type"@);
    match part.text_member("text"@) {
        Some(s) if kind == Some("text"@) || kind == Some("input_text"@) => s,
        _ => Seq::empty(),
    }
}

/// The texts of the parts of a Responses item, one after the other.
pub open spec fn item_parts_text(parts: Seq<JsonTree>) -> Seq<char>
    decreases parts.len(),
{
    if parts.len() == 0 {
        Seq::empty()
    } else {
        item_parts_text(parts.drop_last()) + item_part_text(parts.last())
    }
}

/// The text of a Responses item: its `content`, or else the whole item as JSON text.
pub open spec fn item_text(item: JsonTree) -> Seq<char> {
    match item.member("content"@) {
        Some(JsonTree::Str(s)) => s,
        Some(JsonTree::Array(parts)) => item_parts_text(parts),
        _ => json::printed(item),
    }
}

/// One message of a conversation: who speaks, and the trimmed text.
pub struct Turn {
    pub role: Seq<char>,
    pub text: Seq<char>,
}

/// The role marks instructions rather than conversation.
pub open spec fn instructs(role: Seq<char>) -> bool {
    role == "system"@ || role == "developer"@
}

/// `role` with its first character in upper case.
pub open spec fn capitalized(role: Seq<char>) -> Seq<char> {
    if role.len() == 0 {
        Seq::empty()
    } else {
        text::upper_of(role.first()) + role.drop_first()
    }
}

/// The texts of the turns that instruct, in order.
pub open spec fn instruction_lines(turns: Seq<Turn>) -> Seq<Seq<char>>
    decreases turns.len(),
{
    if turns.len() == 0 {
        Seq::empty()
    } else {
        let lines = instruction_lines(turns.drop_last());
        let turn = turns.last();
        if turn.text.len() > 0 && instructs(turn.role) {
            lines.push(turn.text)
        } else {
            lines
        }
    }
}

/// The turns that are conversation, in order, each as `Role: text`. Where `by_role` holds, turns
/// that instruct are left out.
pub open spec fn transcript_lines(turns: Seq<Turn>, by_role: bool) -> Seq<Seq<char>>
    decreases turns.len(),
{
    if turns.len() == 0 {
        Seq::empty()
    } else {
        let lines = transcript_lines(turns.drop_last(), by_role);
        let turn = turns.last();
        if turn.text.len() > 0 && !(by_role && instructs(turn.role)) {
            lines.push(capitalized(turn.role) + ": "@ + turn.text)
        } else {
            lines
        }
    }
}

/// `lines` without the empty ones.
pub open spec fn filled(lines: Seq<Seq<char>>) -> Seq<Seq<char>>
    decreases lines.len(),
{
    if lines.len() == 0 {
        Seq::empty()
    } else if lines.last().len() == 0 {
        filled(lines.drop_last())
    } else {
        filled(lines.drop_last()).push(lines.last())
    }
}

/// `lines` as one text: the empty ones dropped, the others each on a line of its own, trimmed.
pub open spec fn block_text(lines: Seq<Seq<char>>) -> Seq<char> {
    text::trimmed(text::joined(filled(lines), "\n"@))
}

/// A block of context under a heading; none where there is no text.
pub open spec fn block(heading: Seq<char>, text: Seq<char>) -> Seq<Seq<char>> {
    if text.len() == 0 {
        Seq::empty()
    } else {
        seq![heading + text]
    }
}

/// The context: the instructions, then the earlier conversation.
pub open spec fn context_blocks(system: Seq<Seq<char>>, transcript: Seq<Seq<char>>) -> Seq<
    Seq<char>,
> {
    block("System instructions:\n"@, block_text(system)) + block(
        "Prior conversation transcript:\n"@,
        block_text(transcript),
    )
}

/// The translation of a conversation. The prompt is the final turn, which has to be a user's;
/// `by_role` says whether turns of the roles `system` and `developer` are instructions.
pub open spec fn translation(
    turns: Seq<Turn>,
    instructions: Seq<Seq<char>>,
    by_role: bool,
    not_user: Seq<char>,
    missing: Seq<char>,
) -> Result<Translation, Seq<char>> {
    let system = if by_role {
        instructions + instruction_lines(turns)
    } else {
        instructions
    };
    if turns.len() == 0 || turns.last().text.len() == 0 || (by_role && instructs(
        turns.last().role,
    )) {
        Err(missing)
    } else if turns.last().role != "user"@ {
        Err(not_user)
    } else {
        Ok(
            Translation {
                prompt: turns.last().text,
                context: context_blocks(system, transcript_lines(turns.drop_last(), by_role)),
            },
        )
    }
}

/// The turns of an OpenAI request.
pub open spec fn openai_turns(messages: Seq<OpenAIMessage>) -> Seq<Turn> {
    messages.map_values(
        |m: OpenAIMessage| Turn { role: m.role@, text: text::trimmed(content_text(m.content)) },
    )
}

/// The turns of an Anthropic request.
pub open spec fn anthropic_turns(messages: Seq<AnthropicMessage>) -> Seq<Turn> {
    messages.map_values(
        |m: AnthropicMessage| Turn { role: m.role@, text: text::trimmed(content_text(m.content)) },
    )
}

/// The turns of a Responses request.
pub open spec fn item_turns(items: Seq<JsonTree>) -> Seq<Turn> {
    items.map_values(
        |item: JsonTree|
            Turn {
                role: match item.text_member("role"@) {
                    Some(role) => role,
                    None => Seq::empty(),
                },
                text: text::trimmed(item_text(item)),
            },
    )
}

/// The result of a translation as mathematics.
pub open spec fn outcome(result: Result<TranslatedRequest, String>) -> Result<
    Translation,
    Seq<char>,
> {
    match result {
        Ok(translated) => Ok(translated@),
        Err(message) => Err(message@),
    }
}

/// What an OpenAI request is translated into.
pub open spec fn openai_translation(request: OpenAIChatRequest) -> Result<Translation, Seq<char>> {
    translation(
        openai_turns(request.messages@),
        Seq::empty(),
        true,
        "The final OpenAI message must be a user message."@,
        "A final user message is required."@,
    )
}

/// The instructions of a Responses request; none where they are empty.
pub open spec fn responses_instructions(request: OpenAIResponsesRequest) -> Seq<Seq<char>> {
    match request.instructions {
        Some(s) if s@.len() > 0 => seq![s@],
        _ => Seq::empty(),
    }
}

/// What a Responses request is translated into.
pub open spec fn responses_translation(request: OpenAIResponsesRequest) -> Result<
    Translation,
    Seq<char>,
> {
    let instructions = responses_instructions(request);
    match request.input {
        ResponsesInput::Text(text) => Ok(
            Translation {
                prompt: text@,
                context: instructions.map_values(
                    |s: Seq<char>| "System instructions:\n"@ + s,
                ),
            },
        ),
        ResponsesInput::Messages(items) => translation(
            item_turns(json::trees(items@)),
            instructions,
            true,
            "The final Responses input message must be a user message."@,
            "No user message found in input."@,
        ),
    }
}

/// What an Anthropic request is translated into.
pub open spec fn anthropic_translation(request: AnthropicMessagesRequest) -> Result<
    Translation,
    Seq<char>,
> {
    translation(
        anthropic_turns(request.messages@),
        match request.system {
            Some(content) => seq![text::trimmed(content_text(content))],
            None => Seq::empty(),
        },
        false,
        "The final Anthropic message must be a user message."@,
        "A final user message is required."@,
    )
}

// ---------------------------------------------------------------------------------------------
// Translating
// ---------------------------------------------------------------------------------------------

/// The text of a message's content.
pub fn flatten_content(content: &MessageContent) -> (text: String)
    ensures
        text@ == content_text(*content),
{
    match content {
        MessageContent::Text(s) => s.clone(),
        MessageContent::Parts(parts) => {
            let mut text = String::new();
            assert(parts@.take(0) =~= Seq::<ContentPart>::empty());
            for i in 0..parts.len()
                invariant
                    text@ == parts_text(parts@.take(i as int)),
            {
                assert(parts@.take(i + 1).drop_last() =~= parts@.take(i as int));
                let ghost before = text@;
                if same_text(parts[i].part_type.as_str(), "text") {
                    if let Some(s) = &parts[i].text {
                        text.append(s.as_str());
                    }
                }
                assert(text@ =~= before + part_text(parts@[i as int]));
            }
            assert(parts@.take(parts@.len() as int) =~= parts@);
            text
        },
    }
}

/// The text of a message's content, or nothing where there is none.
pub fn flatten_optional_content(content: Option<&MessageContent>) -> (text: String)
    ensures
        text@ == match content {
            Some(c) => content_text(*c),
            None => Seq::empty(),
        },
{
    match content {
        Some(c) => flatten_content(c),
        None => String::new(),
    }
}

/// `lines` as one text.
pub fn join_lines(lines: &[String]) -> (text: String)
    ensures
        text@ == block_text(text::views(lines@)),
{
    let mut kept: Vec<String> = Vec::new();
    assert(text::views(lines@).take(0) =~= Seq::<Seq<char>>::empty());
    assert(text::views(kept@) =~= Seq::<Seq<char>>::empty());
    for i in 0..lines.len()
        invariant
            text::views(kept@) == filled(text::views(lines@).take(i as int)),
    {
        assert(text::views(lines@).take(i + 1).drop_last() =~= text::views(lines@).take(i as int));
        let ghost before = kept@;
        if !lines[i].as_str().is_empty() {
            kept.push(lines[i].clone());
            assert(text::views(kept@) =~= text::views(before).push(lines@[i as int]@));
        }
    }
    assert(text::views(lines@).take(lines@.len() as int) =~= text::views(lines@));
    trim_text(join_text(&kept, "\n").as_str())
}

/// `role` with its first character in upper case.
pub fn capitalize_role(role: &str) -> (label: String)
    ensures
        label@ == capitalized(role@),
{
    let n = role.unicode_len();
    if n == 0 {
        return String::new();
    }
    let first = part_of(role, 0, 1);
    let mut label = upper_text(first.as_str());
    proof {
        assert(first@ =~= seq![role@[0]]);
        assert(first@.drop_last() =~= Seq::<char>::empty());
        reveal_with_fuel(text::upper, 2);
        assert(label@ =~= text::upper_of(role@[0]));
        assert(role@.subrange(1, n as int) =~= role@.drop_first());
    }
    label.append(part_of(role, 1, n).as_str());
    label
}

/// The text of a Responses item.
pub fn extract_item_content(item: &Json) -> (text: String)
    ensures
        text@ == item_text(item.tree()),
{
    if let Some(content) = item.get("content") {
        if let Some(s) = content.as_str() {
            return s.to_owned();
        }
        if let Some(parts) = content.as_array() {
            let mut text = String::new();
            let ghost all = json::trees(parts@);
            assert(all.take(0) =~= Seq::<JsonTree>::empty());
            for i in 0..parts.len()
                invariant
                    all == json::trees(parts@),
                    text@ == item_parts_text(all.take(i as int)),
            {
                assert(all.take(i + 1).drop_last() =~= all.take(i as int));
                let ghost before = text@;
                if let Some(kind) = parts[i].get_str("type") {
                    if same_text(kind, "text") || same_text(kind, "input_text") {
                        if let Some(s) = parts[i].get_str("text") {
                            text.append(s);
                        }
                    }
                }
                assert(text@ =~= before + item_part_text(all[i as int]));
            }
            assert(all.take(all.len() as int) =~= all);
            return text;
        }
    }
    print_json(item)
}

/// One message of a conversation.
struct TextTurn {
    role: String,
    text: String,
}

impl TextTurn {
    spec fn turn(self) -> Turn {
        Turn { role: self.role@, text: self.text@ }
    }
}

spec fn turns_of(turns: Seq<TextTurn>) -> Seq<Turn> {
    turns.map_values(|t: TextTurn| t.turn())
}

/// Whether the role marks instructions.
fn is_instruction_role(role: &str) -> (b: bool)
    ensures
        b == instructs(role@),
{
    same_text(role, "system") || same_text(role, "developer")
}

/// The block of context under a heading, appended to `context` where there is text.
fn push_block(context: &mut Vec<String>, heading: &str, text: &str)
    ensures
        text::views(final(context)@) == text::views(old(context)@) + block(heading@, text@),
{
    if !text.is_empty() {
        let mut entry = heading.to_owned();
        entry.append(text);
        context.push(entry);
        assert(text::views(context@) =~= text::views(old(context)@) + seq![heading@ + text@]);
    } else {
        assert(text::views(context@) =~= text::views(old(context)@) + Seq::<Seq<char>>::empty());
    }
}

/// The translation of a conversation.
fn translate_turns(
    turns: &Vec<TextTurn>,
    instructions: Vec<String>,
    by_role: bool,
    not_user: &str,
    missing: &str,
) -> (result: Result<TranslatedRequest, String>)
    ensures
        outcome(result) == translation(
            turns_of(turns@),
            text::views(instructions@),
            by_role,
            not_user@,
            missing@,
        ),
{
    let ghost all = turns_of(turns@);
    let mut system_lines = instructions;
    let mut transcript: Vec<String> = Vec::new();
    let mut prompt = String::new();
    let count = turns.len();
    proof {
        assert(all.take(0) =~= Seq::<Turn>::empty());
        assert(text::views(transcript@) =~= Seq::<Seq<char>>::empty());
        assert(text::views(instructions@) =~= text::views(instructions@) + Seq::<Seq<char>>::empty());
    }
    for i in 0..count
        invariant
            count == turns@.len(),
            all == turns_of(turns@),
            by_role ==> text::views(system_lines@) == text::views(instructions@) + instruction_lines(
                all.take(i as int),
            ),
            !by_role ==> text::views(system_lines@) == text::views(instructions@),
            i < count ==> text::views(transcript@) == transcript_lines(all.take(i as int), by_role),
            i < count ==> prompt@.len() == 0,
            i == count && count > 0 ==> {
                &&& text::views(transcript@) == transcript_lines(all.drop_last(), by_role)
                &&& if all.last().text.len() == 0 || (by_role && instructs(all.last().role)) {
                    prompt@.len() == 0
                } else {
                    all.last().role == "user"@ && prompt@ == all.last().text
                }
            },
            i == count && count == 0 ==> prompt@.len() == 0,
    {
        let turn = &turns[i];
        let ghost t = all[i as int];
        proof {
            assert(all.take(i + 1).drop_last() =~= all.take(i as int));
            assert(all.take(i + 1).last() == t);
            assert(i + 1 == count ==> all.drop_last() =~= all.take(i as int));
            assert(i + 1 == count ==> all.take(i + 1) =~= all);
        }
        if !turn.text.as_str().is_empty() {
            if by_role && is_instruction_role(turn.role.as_str()) {
                let ghost before = system_lines@;
                system_lines.push(turn.text.clone());
                assert(text::views(system_lines@) =~= text::views(before).push(t.text));
                assert(text::views(before).push(t.text) =~= text::views(instructions@)
                    + instruction_lines(all.take(i as int)).push(t.text));
            } else if i == count - 1 {
                if !same_text(turn.role.as_str(), "user") {
                    return Err(not_user.to_owned());
                }
                prompt = turn.text.clone();
            } else {
                let mut line = capitalize_role(turn.role.as_str());
                line.append(": ");
                line.append(turn.text.as_str());
                let ghost before = transcript@;
                transcript.push(line);
                assert(text::views(transcript@) =~= text::views(before).push(line@));
            }
        }
    }
    assert(all.take(count as int) =~= all);
    if prompt.as_str().is_empty() {
        return Err(missing.to_owned());
    }
    let mut additional_context: Vec<String> = Vec::new();
    let system_text = join_lines(&system_lines);
    push_block(&mut additional_context, "System instructions:\n", system_text.as_str());
    let transcript_text = join_lines(&transcript);
    push_block(
        &mut additional_context,
        "Prior conversation transcript:\n",
        transcript_text.as_str(),
    );
    Ok(TranslatedRequest { prompt, additional_context })
}

/// Translates the body of `POST /v1/chat/completions`.
pub fn translate_openai_request(request: &OpenAIChatRequest) -> (result: Result<
    TranslatedRequest,
    String,
>)
    ensures
        outcome(result) == openai_translation(*request),
{
    let mut turns: Vec<TextTurn> = Vec::new();
    let ghost all = openai_turns(request.messages@);
    for i in 0..request.messages.len()
        invariant
            all == openai_turns(request.messages@),
            turns_of(turns@) == all.take(i as int),
    {
        let message = &request.messages[i];
        let text = trim_text(flatten_content(&message.content).as_str());
        let ghost before = turns@;
        turns.push(TextTurn { role: message.role.clone(), text });
        assert(turns_of(turns@) =~= turns_of(before).push(all[i as int]));
    }
    assert(turns_of(turns@) =~= all);
    let instructions: Vec<String> = Vec::new();
    assert(text::views(instructions@) =~= Seq::<Seq<char>>::empty());
    translate_turns(
        &turns,
        instructions,
        true,
        "The final OpenAI message must be a user message.",
        "A final user message is required.",
    )
}

/// Translates the body of `POST /v1/responses`.
pub fn translate_responses_request(request: &OpenAIResponsesRequest) -> (result: Result<
    TranslatedRequest,
    String,
>)
    ensures
        outcome(result) == responses_translation(*request),
{
    let mut instructions: Vec<String> = Vec::new();
    if let Some(s) = &request.instructions {
        if !s.as_str().is_empty() {
            instructions.push(s.clone());
        }
    }
    assert(text::views(instructions@) =~= responses_instructions(*request));
    match &request.input {
        ResponsesInput::Text(text) => {
            let mut additional_context: Vec<String> = Vec::new();
            if instructions.len() > 0 {
                let mut entry = "System instructions:\n".to_owned();
                entry.append(instructions[0].as_str());
                additional_context.push(entry);
            }
            let translated = TranslatedRequest { prompt: text.clone(), additional_context };
            assert(translated@.context =~= responses_instructions(*request).map_values(
                |s: Seq<char>| "System instructions:\n"@ + s,
            ));
            Ok(translated)
        },
        ResponsesInput::Messages(items) => {
            let mut turns: Vec<TextTurn> = Vec::new();
            let ghost all = item_turns(json::trees(items@));
            for i in 0..items.len()
                invariant
                    all == item_turns(json::trees(items@)),
                    turns_of(turns@) == all.take(i as int),
            {
                let item = &items[i];
                let role = match item.get_str("role") {
                    Some(role) => role.to_owned(),
                    None => String::new(),
                };
                let text = trim_text(extract_item_content(item).as_str());
                let ghost before = turns@;
                turns.push(TextTurn { role, text });
                assert(turns_of(turns@) =~= turns_of(before).push(all[i as int]));
            }
            assert(turns_of(turns@) =~= all);
            translate_turns(
                &turns,
                instructions,
                true,
                "The final Responses input message must be a user message.",
                "No user message found in input.",
            )
        },
    }
}

/// Translates the body of `POST /v1/messages`.
pub fn translate_anthropic_request(request: &AnthropicMessagesRequest) -> (result: Result<
    TranslatedRequest,
    String,
>)
    ensures
        outcome(result) == anthropic_translation(*request),
{
    let mut instructions: Vec<String> = Vec::new();
    if request.system.is_some() {
        let text = flatten_optional_content(request.system.as_ref());
        instructions.push(trim_text(text.as_str()));
        assert(text::views(instructions@) =~= seq![instructions@[0]@]);
    } else {
        assert(text::views(instructions@) =~= Seq::<Seq<char>>::empty());
    }
    let mut turns: Vec<TextTurn> = Vec::new();
    let ghost all = anthropic_turns(request.messages@);
    for i in 0..request.messages.len()
        invariant
            all == anthropic_turns(request.messages@),
            turns_of(turns@) == all.take(i as int),
    {
        let message = &request.messages[i];
        let text = trim_text(flatten_content(&message.content).as_str());
        let ghost before = turns@;
        turns.push(TextTurn { role: message.role.clone(), text });
        assert(turns_of(turns@) =~= turns_of(before).push(all[i as int]));
    }
    assert(turns_of(turns@) =~= all);
    translate_turns(
        &turns,
        instructions,
        false,
        "The final Anthropic message must be a user message.",
        "A final user message is required.",
    )
}

// ---------------------------------------------------------------------------------------------
// Laws
// ---------------------------------------------------------------------------------------------

/// A conversation is translated exactly where its final turn is a user's and has text.
pub proof fn law_translated_iff_final_user_turn(
    turns: Seq<Turn>,
    instructions: Seq<Seq<char>>,
    by_role: bool,
    not_user: Seq<char>,
    missing: Seq<char>,
)
    ensures
        translation(turns, instructions, by_role, not_user, missing) is Ok <==> {
            &&& turns.len() > 0
            &&& turns.last().role == "user"@
            &&& turns.last().text.len() > 0
        },
{
    lemma_user_does_not_instruct();
}

/// The role `user` does not mark instructions.
proof fn lemma_user_does_not_instruct()
    ensures
        !instructs("user"@),
{
    reveal_strlit("user");
    reveal_strlit("system");
    reveal_strlit("developer");
    assert("user"@[0] == 'u');
    assert("system"@[0] == 's');
    assert("developer"@[0] == 'd');
}

/// The prompt that a chat request is translated into has text, and neither begins nor ends with
/// white space.
pub proof fn law_openai_prompt_is_trimmed(request: OpenAIChatRequest)
    requires
        openai_translation(request) is Ok,
    ensures
        openai_translation(request)->Ok_0.prompt.len() > 0,
        text::trimmed(openai_translation(request)->Ok_0.prompt) == openai_translation(
            request,
        )->Ok_0.prompt,
{
    text::lemma_trim_idempotent(content_text(request.messages@.last().content));
}

/// The prompt that an Anthropic request is translated into has text, and neither begins nor ends
/// with white space.
pub proof fn law_anthropic_prompt_is_trimmed(request: AnthropicMessagesRequest)
    requires
        anthropic_translation(request) is Ok,
    ensures
        anthropic_translation(request)->Ok_0.prompt.len() > 0,
        text::trimmed(anthropic_translation(request)->Ok_0.prompt) == anthropic_translation(
            request,
        )->Ok_0.prompt,
{
    text::lemma_trim_idempotent(content_text(request.messages@.last().content));
}

/// There are at most two blocks of context, and none of them is empty.
pub proof fn law_context_has_at_most_two_blocks(
    turns: Seq<Turn>,
    instructions: Seq<Seq<char>>,
    by_role: bool,
    not_user: Seq<char>,
    missing: Seq<char>,
)
    ensures
        translation(turns, instructions, by_role, not_user, missing) matches Ok(translated) ==> {
            &&& translated.context.len() <= 2
            &&& forall|i: int|
                0 <= i < translated.context.len() ==> (#[trigger] translated.context[i]).len() > 0
        },
{
}

/// A single user message without instructions is its own prompt and has no context.
pub proof fn law_single_message_has_no_context(
    turn: Turn,
    by_role: bool,
    not_user: Seq<char>,
    missing: Seq<char>,
)
    requires
        turn.role == "user"@,
        turn.text.len() > 0,
    ensures
        translation(seq![turn], Seq::empty(), by_role, not_user, missing) == Ok::<_, Seq<char>>(
            Translation { prompt: turn.text, context: Seq::empty() },
        ),
{
    lemma_user_does_not_instruct();
    let turns = seq![turn];
    assert(turns.drop_last() =~= Seq::<Turn>::empty());
    reveal_with_fuel(instruction_lines, 2);
    reveal_with_fuel(transcript_lines, 1);
    let none = Seq::<Seq<char>>::empty();
    assert(instruction_lines(turns) =~= none);
    assert(none + none =~= none);
    assert(block_text(none) =~= Seq::<char>::empty());
}

/// A turn without text, put anywhere before the final turn, changes nothing.
pub proof fn law_blank_turns_are_ignored(
    before: Seq<Turn>,
    blank: Turn,
    after: Seq<Turn>,
    instructions: Seq<Seq<char>>,
    by_role: bool,
    not_user: Seq<char>,
    missing: Seq<char>,
)
    requires
        blank.text.len() == 0,
        after.len() > 0,
    ensures
        translation(before.push(blank) + after, instructions, by_role, not_user, missing)
            == translation(before + after, instructions, by_role, not_user, missing),
{
    let with = before.push(blank) + after;
    let without = before + after;
    lemma_blank_lines(before, blank, after, by_role);
    lemma_blank_lines(before, blank, after.drop_last(), by_role);
    assert(with.drop_last() =~= before.push(blank) + after.drop_last());
    assert(without.drop_last() =~= before + after.drop_last());
}

proof fn lemma_blank_lines(before: Seq<Turn>, blank: Turn, after: Seq<Turn>, by_role: bool)
    requires
        blank.text.len() == 0,
    ensures
        instruction_lines(before.push(blank) + after) == instruction_lines(before + after),
        transcript_lines(before.push(blank) + after, by_role) == transcript_lines(
            before + after,
            by_role,
        ),
    decreases after.len(),
{
    let with = before.push(blank) + after;
    let without = before + after;
    if after.len() == 0 {
        assert(with =~= before.push(blank));
        assert(without =~= before);
        assert(before.push(blank).drop_last() =~= before);
    } else {
        lemma_blank_lines(before, blank, after.drop_last(), by_role);
        assert(with.drop_last() =~= before.push(blank) + after.drop_last());
        assert(without.drop_last() =~= before + after.drop_last());
    }
}

/// A conversation without the roles `system` and `developer` is translated alike whether or not
/// these roles mark instructions: chat requests and Anthropic requests differ in them alone.
pub proof fn law_plain_conversations_agree(
    turns: Seq<Turn>,
    instructions: Seq<Seq<char>>,
    not_user: Seq<char>,
    missing: Seq<char>,
)
    requires
        forall|i: int| 0 <= i < turns.len() ==> !instructs((#[trigger] turns[i]).role),
    ensures
        translation(turns, instructions, true, not_user, missing) == translation(
            turns,
            instructions,
            false,
            not_user,
            missing,
        ),
{
    lemma_plain_lines(turns);
    if turns.len() > 0 {
        lemma_plain_lines(turns.drop_last());
    }
    assert(instructions + instruction_lines(turns) =~= instructions);
}

proof fn lemma_plain_lines(turns: Seq<Turn>)
    requires
        forall|i: int| 0 <= i < turns.len() ==> !instructs((#[trigger] turns[i]).role),
    ensures
        instruction_lines(turns) == Seq::<Seq<char>>::empty(),
        transcript_lines(turns, true) == transcript_lines(turns, false),
    decreases turns.len(),
{
    if turns.len() > 0 {
        let rest = turns.drop_last();
        assert forall|i: int| 0 <= i < rest.len() implies !instructs((#[trigger] rest[i]).role) by {
            assert(!instructs(turns[i].role));
        }
        lemma_plain_lines(rest);
        assert(!instructs(turns[turns.len() - 1].role));
    }
}

/// The line of a turn in the transcript: who speaks, and what.
pub open spec fn spoken_line(turn: Turn) -> Seq<char> {
    capitalized(turn.role) + ": "@ + turn.text
}

/// Each turn with text has its own line in the transcript, behind those of the turns before it,
/// whatever these are; a turn that instructs, and one without text, has none. Each turn that
/// instructs has its text among the instructions in the same way.
pub proof fn law_each_turn_adds_its_line(turns: Seq<Turn>, turn: Turn, by_role: bool)
    ensures
        turn.text.len() > 0 && !(by_role && (turn.role == "system"@ || turn.role == "developer"@))
            ==> transcript_lines(turns.push(turn), by_role) == transcript_lines(
            turns,
            by_role,
        ).push(capitalized(turn.role) + ": "@ + turn.text),
        turn.text.len() == 0 || (by_role && (turn.role == "system"@ || turn.role == "developer"@))
            ==> transcript_lines(turns.push(turn), by_role) == transcript_lines(turns, by_role),
        turn.text.len() > 0 && (turn.role == "system"@ || turn.role == "developer"@)
            ==> instruction_lines(turns.push(turn)) == instruction_lines(turns).push(turn.text),
        turn.text.len() == 0 || !(turn.role == "system"@ || turn.role == "developer"@)
            ==> instruction_lines(turns.push(turn)) == instruction_lines(turns),
        transcript_lines(Seq::empty(), by_role) == Seq::<Seq<char>>::empty(),
        instruction_lines(Seq::empty()) == Seq::<Seq<char>>::empty(),
{
    assert(turns.push(turn).drop_last() =~= turns);
}

/// The turn is part of the conversation: it has text and does not instruct.
pub open spec fn speaks(turn: Turn, by_role: bool) -> bool {
    turn.text.len() > 0 && !(by_role && (turn.role == "system"@ || turn.role == "developer"@))
}

/// The transcript has a line for each turn of the conversation, one for one and in order: each
/// line is that of some turn, and those of two turns stand in the order of the turns.
pub proof fn law_transcript_has_every_turn(turns: Seq<Turn>, by_role: bool)
    ensures
        transcript_lines(turns, by_role) == turns.filter(
            |t: Turn| speaks(t, by_role),
        ).map_values(|t: Turn| spoken_line(t)),
        instruction_lines(turns) == turns.filter(
            |t: Turn| t.text.len() > 0 && (t.role == "system"@ || t.role == "developer"@),
        ).map_values(|t: Turn| t.text),
    decreases turns.len(),
{
    let said = |t: Turn| speaks(t, by_role);
    let told = |t: Turn| t.text.len() > 0 && (t.role == "system"@ || t.role == "developer"@);
    reveal(Seq::filter);
    if turns.len() > 0 {
        let rest = turns.drop_last();
        law_transcript_has_every_turn(rest, by_role);
        assert(transcript_lines(turns, by_role) =~= turns.filter(said).map_values(
            |t: Turn| spoken_line(t),
        ));
        assert(instruction_lines(turns) =~= turns.filter(told).map_values(|t: Turn| t.text));
    } else {
        assert(transcript_lines(turns, by_role) =~= turns.filter(said).map_values(
            |t: Turn| spoken_line(t),
        ));
        assert(instruction_lines(turns) =~= turns.filter(told).map_values(|t: Turn| t.text));
    }
}

/// A translation has the final turn as its prompt, and its context is the instructions and then
/// the transcript of the turns before, each as lines under its heading and only where there are
/// any.
pub proof fn law_translation_is_prompt_and_blocks(
    turns: Seq<Turn>,
    instructions: Seq<Seq<char>>,
    by_role: bool,
    not_user: Seq<char>,
    missing: Seq<char>,
)
    ensures
        translation(turns, instructions, by_role, not_user, missing) matches Ok(translated) ==> ({
            let system = text::trimmed(
                text::joined(
                    filled(
                        if by_role {
                            instructions + instruction_lines(turns)
                        } else {
                            instructions
                        },
                    ),
                    "\n"@,
                ),
            );
            let transcript = text::trimmed(
                text::joined(transcript_lines(turns.drop_last(), by_role), "\n"@),
            );
            let first = if system.len() > 0 {
                seq!["System instructions:\n"@ + system]
            } else {
                Seq::<Seq<char>>::empty()
            };
            let second = if transcript.len() > 0 {
                seq!["Prior conversation transcript:\n"@ + transcript]
            } else {
                Seq::<Seq<char>>::empty()
            };
            &&& translated.prompt == turns.last().text
            &&& translated.context == first + second
        }),
{
    if turns.len() > 0 {
        lemma_lines_are_filled(turns.drop_last(), by_role);
    }
}

/// No line of a transcript is empty.
proof fn lemma_lines_are_filled(turns: Seq<Turn>, by_role: bool)
    ensures
        filled(transcript_lines(turns, by_role)) == transcript_lines(turns, by_role),
    decreases turns.len(),
{
    if turns.len() > 0 {
        lemma_lines_are_filled(turns.drop_last(), by_role);
        reveal_strlit(": ");
        let lines = transcript_lines(turns.drop_last(), by_role);
        let line = spoken_line(turns.last());
        assert(line.len() >= 2);
        assert(lines.push(line).drop_last() =~= lines);
    }
}

/// Of lines, the empty ones alone are dropped.
pub proof fn law_empty_lines_are_dropped(lines: Seq<Seq<char>>, line: Seq<char>)
    ensures
        filled(Seq::empty()) == Seq::<Seq<char>>::empty(),
        filled(lines.push(line)) == if line.len() == 0 {
            filled(lines)
        } else {
            filled(lines).push(line)
        },
{
    assert(lines.push(line).drop_last() =~= lines);
}

/// What was said before the final turn is in the transcript: every turn of the conversation, the
/// latest one as well as the first. The turn's text neither begins nor ends with white space, as
/// that of a request's turn does not; its line is found whole where it does not either.
pub proof fn law_earlier_turns_are_not_lost(
    turns: Seq<Turn>,
    at: int,
    instructions: Seq<Seq<char>>,
    by_role: bool,
    not_user: Seq<char>,
    missing: Seq<char>,
)
    requires
        translation(turns, instructions, by_role, not_user, missing) is Ok,
        0 <= at < turns.len() - 1,
        speaks(turns[at], by_role),
        text::trimmed(turns[at].text) == turns[at].text,
    ensures
        ({
            let context = translation(
                turns,
                instructions,
                by_role,
                not_user,
                missing,
            )->Ok_0.context;
            &&& context.len() > 0
            &&& text::begins_with(context.last(), "Prior conversation transcript:\n"@)
            &&& text::occurs_in(context.last(), turns[at].text)
            &&& text::trimmed(spoken_line(turns[at])) == spoken_line(turns[at])
                ==> text::occurs_in(context.last(), spoken_line(turns[at]))
        }),
{
    let before = turns.drop_last();
    let lines = transcript_lines(before, by_role);
    let turn = turns[at];
    let line = spoken_line(turn);
    lemma_line_of_turn(before, at, by_role);
    let i = choose|i: int| 0 <= i < lines.len() && lines[i] == line;
    let whole = text::joined(lines, "\n"@);
    text::lemma_joined_holds(lines, "\n"@, i);
    let start = capitalized(turn.role) + ": "@;
    assert(line.subrange(start.len() as int, line.len() as int) =~= turn.text);
    assert(text::occurs_at(line, turn.text, start.len() as int));
    text::lemma_occurs_deeper(whole, line, turn.text);
    text::lemma_trimmed(turn.text);
    let at_text = choose|p: int| text::occurs_at(whole, turn.text, p);
    text::lemma_occurs_in_trimmed(whole, turn.text, at_text);
    let transcript = text::trimmed(whole);
    let heading = "Prior conversation transcript:\n"@;
    text::lemma_occurs_behind(heading, transcript, turn.text);
    if text::trimmed(line) == line {
        text::lemma_trimmed(line);
        let at_line = choose|p: int| text::occurs_at(whole, line, p);
        text::lemma_occurs_in_trimmed(whole, line, at_line);
        text::lemma_occurs_behind(heading, transcript, line);
    }
    law_translation_is_prompt_and_blocks(turns, instructions, by_role, not_user, missing);
    let p = choose|p: int| text::occurs_at(transcript, turn.text, p);
    assert(transcript.len() > 0);
    assert((heading + transcript).take(heading.len() as int) =~= heading);
}

/// Each turn of the conversation has its line.
proof fn lemma_line_of_turn(turns: Seq<Turn>, at: int, by_role: bool)
    requires
        0 <= at < turns.len(),
        speaks(turns[at], by_role),
    ensures
        exists|i: int|
            0 <= i < transcript_lines(turns, by_role).len() && #[trigger] transcript_lines(
                turns,
                by_role,
            )[i] == spoken_line(turns[at]),
    decreases turns.len(),
{
    let rest = turns.drop_last();
    let lines = transcript_lines(turns, by_role);
    if at == turns.len() - 1 {
        assert(lines[lines.len() - 1] == spoken_line(turns[at]));
    } else {
        lemma_line_of_turn(rest, at, by_role);
        let before = transcript_lines(rest, by_role);
        let i = choose|i: int| 0 <= i < before.len() && before[i] == spoken_line(rest[at]);
        assert(lines[i] == spoken_line(turns[at]));
    }
}

/// Instructions are not lost either: those that are given with the request, and where roles count
/// those of every turn that instructs, are under the first heading.
pub proof fn law_instructions_are_not_lost(
    turns: Seq<Turn>,
    instructions: Seq<Seq<char>>,
    by_role: bool,
    not_user: Seq<char>,
    missing: Seq<char>,
    told: Seq<char>,
)
    requires
        translation(turns, instructions, by_role, not_user, missing) is Ok,
        told.len() > 0,
        text::trimmed(told) == told,
        instructions.contains(told) || (by_role && instruction_lines(turns).contains(told)),
    ensures
        ({
            let context = translation(
                turns,
                instructions,
                by_role,
                not_user,
                missing,
            )->Ok_0.context;
            &&& context.len() > 0
            &&& text::begins_with(context[0], "System instructions:\n"@)
            &&& text::occurs_in(context[0], told)
        }),
{
    let system = if by_role {
        instructions + instruction_lines(turns)
    } else {
        instructions
    };
    if instructions.contains(told) {
        let i = choose|i: int| 0 <= i < instructions.len() && instructions[i] == told;
        assert(system[i] == told);
    } else {
        let lines = instruction_lines(turns);
        let i = choose|i: int| 0 <= i < lines.len() && lines[i] == told;
        assert(system[instructions.len() + i] == told);
    }
    let at = choose|i: int| 0 <= i < system.len() && system[i] == told;
    lemma_filled_keeps(system, at);
    let kept = filled(system);
    let i = choose|i: int| 0 <= i < kept.len() && kept[i] == told;
    let whole = text::joined(kept, "\n"@);
    text::lemma_joined_holds(kept, "\n"@, i);
    text::lemma_trimmed(told);
    let p = choose|p: int| text::occurs_at(whole, told, p);
    text::lemma_occurs_in_trimmed(whole, told, p);
    let heading = "System instructions:\n"@;
    let block = text::trimmed(whole);
    text::lemma_occurs_behind(heading, block, told);
    let q = choose|q: int| text::occurs_at(block, told, q);
    assert(block.len() > 0);
    assert((heading + block).take(heading.len() as int) =~= heading);
    law_translation_is_prompt_and_blocks(turns, instructions, by_role, not_user, missing);
}

proof fn lemma_filled_keeps(lines: Seq<Seq<char>>, at: int)
    requires
        0 <= at < lines.len(),
        lines[at].len() > 0,
    ensures
        exists|i: int| 0 <= i < filled(lines).len() && #[trigger] filled(lines)[i] == lines[at],
    decreases lines.len(),
{
    let kept = filled(lines);
    if at == lines.len() - 1 {
        assert(kept[kept.len() - 1] == lines[at]);
    } else {
        lemma_filled_keeps(lines.drop_last(), at);
        let before = filled(lines.drop_last());
        let i = choose|i: int| 0 <= i < before.len() && before[i] == lines.drop_last()[at];
        assert(kept[i] == lines[at]);
    }
}

/// A conversation that is refused is told why: its final turn is not a user's, or there is no
/// final turn with text.
pub proof fn law_refusals_tell_why(
    turns: Seq<Turn>,
    instructions: Seq<Seq<char>>,
    by_role: bool,
    not_user: Seq<char>,
    missing: Seq<char>,
)
    ensures
        turns.len() > 0 && speaks(turns.last(), by_role) && turns.last().role != "user"@
            ==> translation(turns, instructions, by_role, not_user, missing) == Err::<
            Translation,
            Seq<char>,
        >(not_user),
        turns.len() == 0 || !speaks(turns.last(), by_role) ==> translation(
            turns,
            instructions,
            by_role,
            not_user,
            missing,
        ) == Err::<Translation, Seq<char>>(missing),
{
}

/// A label is the role with its first letter in upper case and the rest as it is.
pub proof fn law_label_is_the_role(role: Seq<char>)
    ensures
        role.len() == 0 ==> capitalized(role).len() == 0,
        role.len() > 0 && 'a' <= role[0] <= 'z' ==> capitalized(role) == role.update(
            0,
            (role[0] as int - 32) as char,
        ),
        role.len() > 0 && (role[0] as int) < 128 && !('a' <= role[0] <= 'z') ==> capitalized(role)
            == role,
{
    if role.len() > 0 && 'a' <= role[0] <= 'z' {
        assert(capitalized(role) =~= role.update(0, (role[0] as int - 32) as char));
    }
    if role.len() > 0 && (role[0] as int) < 128 && !('a' <= role[0] <= 'z') {
        assert(capitalized(role) =~= role);
    }
}

/// The text of a list of parts is that of its `text` parts, one after the other as they are.
pub proof fn law_parts_are_read_in_order(parts: Seq<ContentPart>, part: ContentPart)
    ensures
        parts_text(Seq::empty()) == Seq::<char>::empty(),
        part.part_type@ == "text"@ && part.text is Some ==> parts_text(parts.push(part))
            == parts_text(parts) + part.text->0@,
        part.part_type@ != "text"@ || part.text is None ==> parts_text(parts.push(part))
            == parts_text(parts),
{
    assert(parts.push(part).drop_last() =~= parts);
    assert(parts_text(parts) + Seq::<char>::empty() =~= parts_text(parts));
}

/// The text of a list of Responses parts is that of its `text` and `input_text` parts, one after
/// the other as they are.
pub proof fn law_item_parts_are_read_in_order(parts: Seq<JsonTree>, part: JsonTree)
    ensures
        item_parts_text(Seq::empty()) == Seq::<char>::empty(),
        (part.text_member("type"@) == Some("text"@) || part.text_member("type"@) == Some(
            "input_text"@,
        )) ==> (part.text_member("text"@) matches Some(s) ==> item_parts_text(parts.push(part))
            == item_parts_text(parts) + s),
        (part.text_member("type"@) != Some("text"@) && part.text_member("type"@) != Some(
            "input_text"@,
        )) || part.text_member("text"@) is None ==> item_parts_text(parts.push(part))
            == item_parts_text(parts),
{
    assert(parts.push(part).drop_last() =~= parts);
    assert(item_parts_text(parts) + Seq::<char>::empty() =~= item_parts_text(parts));
}

/// A message's content is its text, or that of its parts; a Responses item without a text or
/// parts is read as the JSON text that it is.
pub proof fn law_contents_are_read_in_each_form(content: MessageContent, item: JsonTree)
    ensures
        content matches MessageContent::Text(s) ==> content_text(content) == s@,
        content matches MessageContent::Parts(parts) ==> content_text(content) == parts_text(
            parts@,
        ),
        item.member("content"@) matches Some(JsonTree::Str(s)) ==> item_text(item) == s,
        item.member("content"@) matches Some(JsonTree::Array(parts)) ==> item_text(item)
            == item_parts_text(parts),
        item.member("content"@) is None ==> item_text(item) == json::printed(item),
{
}

/// The turns of a request are its messages, one for one: each has the message's role, and its
/// text without white space around it.
pub proof fn law_turns_are_the_messages(
    chat: Seq<OpenAIMessage>,
    anthropic: Seq<AnthropicMessage>,
    items: Seq<JsonTree>,
)
    ensures
        openai_turns(chat).len() == chat.len(),
        forall|i: int|
            0 <= i < chat.len() ==> (#[trigger] openai_turns(chat)[i]).role == chat[i].role@
                && openai_turns(chat)[i].text == text::trimmed(content_text(chat[i].content)),
        anthropic_turns(anthropic).len() == anthropic.len(),
        forall|i: int|
            0 <= i < anthropic.len() ==> (#[trigger] anthropic_turns(anthropic)[i]).role
                == anthropic[i].role@ && anthropic_turns(anthropic)[i].text == text::trimmed(
                content_text(anthropic[i].content),
            ),
        item_turns(items).len() == items.len(),
        forall|i: int|
            0 <= i < items.len() ==> (#[trigger] item_turns(items)[i]).text == text::trimmed(
                item_text(items[i]),
            ) && (items[i].text_member("role"@) matches Some(role) ==> item_turns(items)[i].role
                == role),
{
}

/// A chat request is its conversation, in which roles count; its prompt is the text of its final
/// message.
pub proof fn law_chat_request_is_its_conversation(
    request: OpenAIChatRequest,
    not_user: Seq<char>,
    missing: Seq<char>,
)
    ensures
        translation(openai_turns(request.messages@), Seq::empty(), true, not_user, missing)
            matches Ok(translated) ==> openai_translation(request) == Ok::<Translation, Seq<char>>(
            translated,
        ),
        openai_translation(request) matches Ok(translated) ==> request.messages@.len() > 0
            && translated.prompt == text::trimmed(content_text(request.messages@.last().content)),
        openai_translation(request) matches Err(message) ==> message
            == "The final OpenAI message must be a user message."@ || message
            == "A final user message is required."@,
{
}

/// An Anthropic request is its conversation, in which roles do not count, with the text of its
/// `system` as instructions; its prompt is the text of its final message.
pub proof fn law_anthropic_request_is_its_conversation(
    request: AnthropicMessagesRequest,
    not_user: Seq<char>,
    missing: Seq<char>,
)
    ensures
        ({
            let instructions = match request.system {
                Some(content) => seq![text::trimmed(content_text(content))],
                None => Seq::empty(),
            };
            translation(
                anthropic_turns(request.messages@),
                instructions,
                false,
                not_user,
                missing,
            ) matches Ok(translated) ==> anthropic_translation(request) == Ok::<
                Translation,
                Seq<char>,
            >(translated)
        }),
        anthropic_translation(request) matches Ok(translated) ==> request.messages@.len() > 0
            && translated.prompt == text::trimmed(content_text(request.messages@.last().content)),
{
}

/// A Responses request with a text is that text as it is, with its instructions as the only
/// context; one with items is their conversation, in which roles count, with the instructions
/// before those of the items.
pub proof fn law_responses_request_is_its_input(
    request: OpenAIResponsesRequest,
    not_user: Seq<char>,
    missing: Seq<char>,
)
    ensures
        request.input matches ResponsesInput::Text(prompt) ==> {
            &&& responses_translation(request) matches Ok(translated)
            &&& translated.prompt == prompt@
            &&& request.instructions matches Some(s) ==> s@.len() > 0 ==> translated.context
                == seq!["System instructions:\n"@ + s@]
            &&& (request.instructions is None || request.instructions->0@.len() == 0)
                ==> translated.context.len() == 0
        },
        request.input matches ResponsesInput::Messages(items) ==> ({
            let instructions = match request.instructions {
                Some(s) if s@.len() > 0 => seq![s@],
                _ => Seq::empty(),
            };
            translation(
                item_turns(json::trees(items@)),
                instructions,
                true,
                not_user,
                missing,
            ) matches Ok(translated) ==> responses_translation(request) == Ok::<
                Translation,
                Seq<char>,
            >(translated)
        }),
{
    if let ResponsesInput::Text(prompt) = request.input {
        if let Ok(translated) = responses_translation(request) {
            if let Some(s) = request.instructions {
                if s@.len() > 0 {
                    assert(translated.context =~= seq!["System instructions:\n"@ + s@]);
                }
            }
        }
    }
}

/// What comes of a request is shown as it is: its prompt and its context, or the reason of its
/// refusal.
pub proof fn law_outcomes_are_shown_as_they_are(translated: TranslatedRequest, message: String)
    ensures
        outcome(Err(message)) == Err::<Translation, Seq<char>>(message@),
        outcome(Ok(translated)) matches Ok(shown) && shown.prompt == translated.prompt@
            && shown.context == text::views(translated.additional_context@),
{
}

} // verus!
