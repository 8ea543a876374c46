//! Reading a chat-completions or responses request.
use crate::api::{bad_request, ApiError};
use crate::json::{items_view, lemma_items_view, lemma_members_view, members_view, Json, JsonView, Member};
use crate::names::lemma_names;
use crate::text::{
    before, blank, is_before, is_blank, joined, lemma_before_total, lemma_before_transitive,
    same_text, white_space,
};
use crate::value::{json_text, parsed_json, plain, raw_name, value_view};
use vstd::prelude::*;

verus! {

/// What is handed to the backend for one request.
pub struct Prompt {
    pub model: String,
    pub text: String,
    pub instructions: String,
    pub effort: Option<String>,
}

/// A request that was accepted.
pub struct Parsed {
    pub prompt: Prompt,
    pub stream: bool,
    pub include_usage: bool,
}

/// One message of the conversation.
pub struct Turn {
    pub role: String,
    pub content: String,
}

/// What a message says.
pub struct TurnView {
    pub role: Seq<char>,
    pub content: Seq<char>,
}

impl View for Turn {
    type V = TurnView;

    open spec fn view(&self) -> TurnView {
        TurnView { role: self.role@, content: self.content@ }
    }
}

/// The messages of a conversation, each by what it says.
pub open spec fn turns(list: Seq<Turn>) -> Seq<TurnView> {
    list.map_values(|turn: Turn| turn@)
}

/// A string that may be missing.
pub open spec fn optional_text(text: Option<String>) -> Option<Seq<char>> {
    match text {
        Some(t) => Some(t@),
        None => None,
    }
}

// ---------------------------------------------------------------------------
// Message content

/// The text of one part of a message's content, or why it has none.
pub open spec fn part_text(part: JsonView) -> Result<Seq<char>, Seq<char>> {
    if part.at("type"@) == JsonView::Text("text"@) || part.at("type"@) == JsonView::Text(
        "input_text"@,
    ) || part.at("type"@) == JsonView::Text("output_text"@) {
        match part.at("text"@).text() {
            Some(text) => Ok(text),
            None => Err("Text part requires text"@),
        }
    } else {
        Err("Only text content is supported; images, audio and tool items are not supported"@)
    }
}

/// The texts of all parts, one after the other, or what is wrong with the first
/// part that has none.
pub open spec fn parts_text(parts: Seq<JsonView>) -> Result<Seq<char>, Seq<char>>
    decreases parts.len(),
{
    if parts.len() == 0 {
        Ok(Seq::empty())
    } else {
        match parts_text(parts.drop_last()) {
            Err(message) => Err(message),
            Ok(text) => match part_text(parts.last()) {
                Err(message) => Err(message),
                Ok(more) => Ok(text + more),
            },
        }
    }
}

/// The text of a message's content: a string, or the texts of its parts.
pub open spec fn content_text(content: JsonView) -> Result<Seq<char>, Seq<char>> {
    match content {
        JsonView::Text(text) => Ok(text),
        JsonView::Array(parts) => parts_text(parts),
        _ => Err("content must be text or an array of text parts"@),
    }
}

/// An error stays the error when more follows.
proof fn lemma_parts_error(parts: Seq<JsonView>, n: int)
    requires
        0 <= n <= parts.len(),
        parts_text(parts.take(n)) is Err,
    ensures
        parts_text(parts) == parts_text(parts.take(n)),
    decreases parts.len(),
{
    if n == parts.len() {
        assert(parts.take(n) == parts);
    } else {
        assert(parts.drop_last().take(n) == parts.take(n));
        lemma_parts_error(parts.drop_last(), n);
    }
}

/// The text of a message's content.
pub fn text_content(value: &Json) -> (text: Result<String, ApiError>)
    ensures
        match text {
            Ok(t) => content_text(value@) == Ok::<Seq<char>, Seq<char>>(t@),
            Err(e) => content_text(value@) is Err && e@ == bad_request(
                content_text(value@)->Err_0,
            ),
        },
{
    match value {
        Json::Text(text) => Ok(text.clone()),
        Json::Array(parts) => {
            let ghost all = items_view(parts@);
            let mut result = String::new();
            let mut i: usize = 0;
            proof {
                lemma_items_view(parts@);
            }
            while i < parts.len()
                invariant
                    i <= parts.len(),
                    value@ == JsonView::Array(all),
                    all == items_view(parts@),
                    all.len() == parts.len(),
                    forall|j: int| 0 <= j < parts.len() ==> #[trigger] all[j] == parts[j]@,
                    parts_text(all.take(i as int)) == Ok::<Seq<char>, Seq<char>>(result@),
                decreases parts.len() - i,
            {
                let part = &parts[i];
                let kind = part.at("type");
                proof {
                    assert(all[i as int] == parts[i as int]@);
                    assert(all.take(i + 1).drop_last() == all.take(i as int));
                    if part_text(part@) is Err {
                        lemma_parts_error(all, i + 1);
                    }
                }
                if kind.is_text("text") || kind.is_text("input_text") || kind.is_text(
                    "output_text",
                ) {
                    match part.at("text").as_text() {
                        Some(text) => result.append(text),
                        None => {
                            return Err(ApiError::bad("Text part requires text"));
                        },
                    }
                } else {
                    return Err(
                        ApiError::bad(
                            "Only text content is supported; images, audio and tool items are not supported",
                        ),
                    );
                }
                i = i + 1;
            }
            assert(all.take(all.len() as int) == all);
            Ok(result)
        },
        _ => Err(ApiError::bad("content must be text or an array of text parts")),
    }
}

// ---------------------------------------------------------------------------
// Parameters

/// The parameters that a request may have.
pub open spec fn allowed_parameter(responses: bool, name: Seq<char>) -> bool {
    if responses {
        ||| name == "model"@
        ||| name == "input"@
        ||| name == "instructions"@
        ||| name == "stream"@
        ||| name == "reasoning"@
        ||| name == "store"@
        ||| name == "metadata"@
        ||| name == "user"@
    } else {
        ||| name == "model"@
        ||| name == "messages"@
        ||| name == "stream"@
        ||| name == "stream_options"@
        ||| name == "reasoning_effort"@
        ||| name == "n"@
        ||| name == "metadata"@
        ||| name == "user"@
    }
}

fn is_allowed_parameter(responses: bool, name: &str) -> (allowed: bool)
    ensures
        allowed == allowed_parameter(responses, name@),
{
    if responses {
        same_text(name, "model") || same_text(name, "input") || same_text(name, "instructions")
            || same_text(name, "stream") || same_text(name, "reasoning") || same_text(name, "store")
            || same_text(name, "metadata") || same_text(name, "user")
    } else {
        same_text(name, "model") || same_text(name, "messages") || same_text(name, "stream")
            || same_text(name, "stream_options") || same_text(name, "reasoning_effort")
            || same_text(name, "n") || same_text(name, "metadata") || same_text(name, "user")
    }
}

/// A parameter that is set and that the gateway does not support.
pub open spec fn unsupported(value: JsonView, responses: bool, name: Seq<char>) -> bool {
    value.at(name) != JsonView::Null && !allowed_parameter(responses, name)
}

/// The unsupported parameter whose name comes first.
pub open spec fn first_unsupported(value: JsonView, responses: bool, name: Seq<char>) -> bool {
    unsupported(value, responses, name) && forall|other: Seq<char>|
        #[trigger] unsupported(value, responses, other) ==> !before(other, name)
}

/// The unsupported parameters of a request.
pub open spec fn unsupported_names(value: JsonView, responses: bool) -> Set<Seq<char>> {
    Set::new(|name: Seq<char>| unsupported(value, responses, name))
}

/// The name that comes first.
pub open spec fn first_name(names: Set<Seq<char>>) -> Seq<char> {
    choose|name: Seq<char>|
        names.contains(name) && forall|other: Seq<char>| #[trigger]
            names.contains(other) ==> !before(other, name)
}

/// The check that every parameter is supported.
pub open spec fn parameters_check(value: JsonView, responses: bool) -> Result<(), Seq<char>> {
    if exists|name: Seq<char>| unsupported(value, responses, name) {
        Err(unsupported_message(first_name(unsupported_names(value, responses))))
    } else {
        Ok(())
    }
}

/// The refusal of an unsupported parameter.
pub open spec fn unsupported_message(name: Seq<char>) -> Seq<char> {
    "Unsupported parameter: "@ + name
        + ". gprox supports text generation only; see README."@
}

/// Finds the unsupported parameter whose name comes first.
fn find_unsupported(value: &Json, responses: bool) -> (found: Option<String>)
    ensures
        match found {
            Some(name) => first_unsupported(value@, responses, name@),
            None => forall|name: Seq<char>| !#[trigger] unsupported(value@, responses, name),
        },
{
    let mut found: Option<String> = None;
    match value {
        Json::Object(members) => {
            let mut i: usize = 0;
            while i < members.len()
                invariant
                    i <= members.len(),
                    *value == Json::Object(*members),
                    match found {
                        Some(name) => unsupported(value@, responses, name@) && forall|j: int|
                            0 <= j < i && #[trigger] unsupported(
                                value@,
                                responses,
                                members[j].name@,
                            ) ==> !before(members[j].name@, name@),
                        None => forall|j: int|
                            0 <= j < i ==> !#[trigger] unsupported(
                                value@,
                                responses,
                                members[j].name@,
                            ),
                    },
                decreases members.len() - i,
            {
                let name = &members[i].name;
                let ghost earlier = found;
                if !value.at(name.as_str()).is_null() && !is_allowed_parameter(
                    responses,
                    name.as_str(),
                ) {
                    let better = match &found {
                        Some(best) => is_before(name.as_str(), best.as_str()),
                        None => true,
                    };
                    if better {
                        proof {
                            lemma_before_total(name@, name@);
                            assert forall|j: int|
                                0 <= j < i + 1 && #[trigger] unsupported(
                                    value@,
                                    responses,
                                    members[j].name@,
                                ) implies !before(members[j].name@, name@) by {
                                if j < i && before(members[j].name@, name@) {
                                    if let Some(best) = earlier {
                                        lemma_before_transitive(members[j].name@, name@, best@);
                                    }
                                }
                            }
                        }
                        found = Some(name.clone());
                    }
                }
                i = i + 1;
            }
            proof {
                assert forall|name: Seq<char>| #[trigger]
                    unsupported(value@, responses, name) implies exists|j: int|
                    0 <= j < members.len() && #[trigger] members[j].name@ == name by {
                    lemma_members_view(members@, name);
                }
            }
            found
        },
        _ => None,
    }
}

proof fn lemma_first_unsupported(value: JsonView, responses: bool, name: Seq<char>)
    requires
        first_unsupported(value, responses, name),
    ensures
        parameters_check(value, responses) == Err::<(), Seq<char>>(unsupported_message(name)),
{
    let names = unsupported_names(value, responses);
    assert(names.contains(name) && forall|other: Seq<char>| #[trigger]
        names.contains(other) ==> !before(other, name));
    let chosen = first_name(names);
    assert(names.contains(chosen));
    lemma_before_total(name, chosen);
}

/// The model of a request.
pub open spec fn model_of(value: JsonView) -> Result<Seq<char>, Seq<char>> {
    match value.at("model"@).text() {
        Some(model) if !blank(model) => Ok(model),
        _ => Err("model is required; use GET /v1/models"@),
    }
}

/// Whether the answer is to be streamed.
pub open spec fn stream_of(value: JsonView) -> Result<bool, Seq<char>> {
    match value.field("stream"@) {
        None => Ok(false),
        Some(JsonView::Bool(stream)) => Ok(stream),
        Some(_) => Err("stream must be boolean"@),
    }
}

/// The check of the parameters that only accept one value.
pub open spec fn fixed_check(value: JsonView, responses: bool) -> Result<(), Seq<char>> {
    if value.field("n"@) is Some && value.at("n"@) != JsonView::Integer(1) {
        Err("Only n=1 is supported"@)
    } else if responses && value.field("store"@) is Some && value.at("store"@) != JsonView::Bool(
        false,
    ) {
        Err("Only store=false is supported; responses are stateless"@)
    } else {
        Ok(())
    }
}

/// The instructions that stand beside the conversation.
pub open spec fn own_instructions(value: JsonView) -> Result<Seq<char>, Seq<char>> {
    match value.field("instructions"@) {
        None => Ok(Seq::empty()),
        Some(JsonView::Text(text)) => Ok(text),
        Some(_) => Err("instructions must be a string"@),
    }
}

/// The check that an object has no member but `name`.
pub open spec fn only_member(members: Map<Seq<char>, JsonView>, name: Seq<char>) -> bool {
    forall|other: Seq<char>| #[trigger] members.contains_key(other) ==> other == name
}

/// The reasoning efforts that the backend knows.
pub open spec fn known_effort(effort: Seq<char>) -> bool {
    ||| effort == "none"@
    ||| effort == "minimal"@
    ||| effort == "low"@
    ||| effort == "medium"@
    ||| effort == "high"@
    ||| effort == "xhigh"@
    ||| effort == "max"@
    ||| effort == "ultra"@
}

/// A given effort, if the backend knows it.
pub open spec fn effort_value(value: Option<JsonView>) -> Result<Option<Seq<char>>, Seq<char>> {
    match value {
        None => Ok(None),
        Some(JsonView::Text(effort)) if known_effort(effort) => Ok(Some(effort)),
        Some(_) => Err("Invalid reasoning effort"@),
    }
}

/// The reasoning effort of a request.
pub open spec fn effort_of(value: JsonView, responses: bool) -> Result<
    Option<Seq<char>>,
    Seq<char>,
> {
    if responses {
        match value.field("reasoning"@) {
            None => Ok(None),
            Some(JsonView::Object(members)) => if only_member(members, "effort"@) {
                effort_value(JsonView::Object(members).field("effort"@))
            } else {
                Err("Only reasoning.effort is supported"@)
            },
            Some(_) => Err("reasoning must be an object"@),
        }
    } else {
        effort_value(value.field("reasoning_effort"@))
    }
}

/// Whether a stream ends with a report of the tokens used.
pub open spec fn usage_wanted(value: JsonView) -> Result<bool, Seq<char>> {
    match value.field("stream_options"@) {
        None => Ok(false),
        Some(JsonView::Object(members)) => if !only_member(members, "include_usage"@) {
            Err("Only stream_options.include_usage is supported"@)
        } else {
            match JsonView::Object(members).field("include_usage"@) {
                None => Ok(false),
                Some(JsonView::Bool(wanted)) => Ok(wanted),
                Some(_) => Err("include_usage must be boolean"@),
            }
        },
        Some(_) => Err("stream_options must be an object"@),
    }
}

fn has_only_member(members: &Vec<Member>, name: &str) -> (only: bool)
    ensures
        only == only_member(members_view(members@), name@),
{
    let mut i: usize = 0;
    while i < members.len()
        invariant
            i <= members.len(),
            forall|j: int| 0 <= j < i ==> #[trigger] members[j].name@ == name@,
        decreases members.len() - i,
    {
        if !same_text(members[i].name.as_str(), name) {
            proof {
                lemma_members_view(members@, members[i as int].name@);
            }
            return false;
        }
        i = i + 1;
    }
    proof {
        assert forall|other: Seq<char>| #[trigger]
            members_view(members@).contains_key(other) implies other == name@ by {
            lemma_members_view(members@, other);
        }
    }
    true
}

fn is_known_effort(effort: &str) -> (known: bool)
    ensures
        known == known_effort(effort@),
{
    same_text(effort, "none") || same_text(effort, "minimal") || same_text(effort, "low")
        || same_text(effort, "medium") || same_text(effort, "high") || same_text(effort, "xhigh")
        || same_text(effort, "max") || same_text(effort, "ultra")
}

fn read_effort(value: Option<&Json>) -> (effort: Result<Option<String>, ApiError>)
    ensures
        ({
            let stated = effort_value(
                match value {
                    Some(v) => Some(v@),
                    None => None,
                },
            );
            match effort {
                Ok(found) => stated == Ok::<Option<Seq<char>>, Seq<char>>(optional_text(found)),
                Err(error) => stated is Err && error@ == bad_request(stated->Err_0),
            }
        }),
{
    match value {
        None => Ok(None),
        Some(v) => match v.as_text() {
            Some(text) if is_known_effort(text) => Ok(Some(text.to_owned())),
            _ => Err(ApiError::bad("Invalid reasoning effort")),
        },
    }
}

// ---------------------------------------------------------------------------
// Conversation

/// The roles whose messages are instructions to the model.
pub open spec fn instructing_role(role: Seq<char>) -> bool {
    role == "system"@ || role == "developer"@
}

/// The roles whose messages are the conversation.
pub open spec fn speaking_role(role: Seq<char>) -> bool {
    role == "user"@ || role == "assistant"@
}

/// One message of a request, or why it is refused.
pub open spec fn message_of(message: JsonView) -> Result<TurnView, Seq<char>> {
    if message.field("tool_calls"@) is Some || message.field("function_call"@) is Some {
        Err("Tool calls are not supported"@)
    } else if message.field("type"@) is Some && message.at("type"@) != JsonView::Text("message"@) {
        Err("Only message input items are supported"@)
    } else {
        match message.at("role"@).text() {
            None => Err("Each message requires a role"@),
            Some(role) => match content_text(message.at("content"@)) {
                Err(reason) => Err(reason),
                Ok(content) => if instructing_role(role) || speaking_role(role) {
                    Ok(TurnView { role, content })
                } else {
                    Err("Unsupported message role: "@ + role)
                },
            },
        }
    }
}

/// What the messages of a request amount to.
#[verifier::ext_equal]
pub struct ConversationView {
    /// What the model is instructed with.
    pub instructions: Seq<char>,
    /// What was said, in order.
    pub history: Seq<TurnView>,
}

/// The conversation with one more message: instructions are collected line by line,
/// everything else is history.
pub open spec fn add_message(conversation: ConversationView, message: TurnView) -> ConversationView {
    if instructing_role(message.role) {
        ConversationView {
            instructions: conversation.instructions + seq!['\n'] + message.content,
            history: conversation.history,
        }
    } else {
        ConversationView {
            instructions: conversation.instructions,
            history: conversation.history.push(message),
        }
    }
}

/// The conversation of a list of messages that follows `instructions`, or what is
/// wrong with the first message that is refused.
pub open spec fn conversation_of(
    messages: Seq<JsonView>,
    instructions: Seq<char>,
) -> Result<ConversationView, Seq<char>>
    decreases messages.len(),
{
    if messages.len() == 0 {
        Ok(ConversationView { instructions, history: Seq::empty() })
    } else {
        match conversation_of(messages.drop_last(), instructions) {
            Err(reason) => Err(reason),
            Ok(earlier) => match message_of(messages.last()) {
                Err(reason) => Err(reason),
                Ok(message) => Ok(add_message(earlier, message)),
            },
        }
    }
}

/// The conversation of a request, or why it is refused.
pub open spec fn dialogue_of(
    value: JsonView,
    responses: bool,
    instructions: Seq<char>,
) -> Result<ConversationView, Seq<char>> {
    let input = if responses {
        value.at("input"@)
    } else {
        value.at("messages"@)
    };
    let conversation = match input {
        JsonView::Text(text) if responses => Ok(
            ConversationView {
                instructions,
                history: seq![TurnView { role: "user"@, content: text }],
            },
        ),
        JsonView::Array(messages) if messages.len() > 0 => conversation_of(messages, instructions),
        _ => Err("A nonempty messages/input array is required"@),
    };
    match conversation {
        Ok(found) if found.history.len() == 0 => Err(
            "At least one user or assistant message is required"@,
        ),
        other => other,
    }
}

proof fn lemma_conversation_error(messages: Seq<JsonView>, instructions: Seq<char>, n: int)
    requires
        0 <= n <= messages.len(),
        conversation_of(messages.take(n), instructions) is Err,
    ensures
        conversation_of(messages, instructions) == conversation_of(messages.take(n), instructions),
    decreases messages.len(),
{
    if n == messages.len() {
        assert(messages.take(n) == messages);
    } else {
        assert(messages.drop_last().take(n) == messages.take(n));
        lemma_conversation_error(messages.drop_last(), instructions, n);
    }
}

/// Reads one message of a request.
fn read_message(message: &Json) -> (turn: Result<Turn, ApiError>)
    ensures
        match turn {
            Ok(found) => message_of(message@) == Ok::<TurnView, Seq<char>>(found@),
            Err(error) => message_of(message@) is Err && error@ == bad_request(
                message_of(message@)->Err_0,
            ),
        },
{
    if message.field("tool_calls").is_some() || message.field("function_call").is_some() {
        return Err(ApiError::bad("Tool calls are not supported"));
    }
    if message.field("type").is_some() && !message.at("type").is_text("message") {
        return Err(ApiError::bad("Only message input items are supported"));
    }
    let role = match message.at("role").as_text() {
        Some(role) => role,
        None => {
            return Err(ApiError::bad("Each message requires a role"));
        },
    };
    let content = match text_content(message.at("content")) {
        Ok(content) => content,
        Err(error) => {
            return Err(error);
        },
    };
    if same_text(role, "system") || same_text(role, "developer") || same_text(role, "user")
        || same_text(role, "assistant") {
        Ok(Turn { role: role.to_owned(), content })
    } else {
        let reason = joined("Unsupported message role: ", role);
        Err(ApiError::bad(reason.as_str()))
    }
}

/// What a request asks for, before it is written down for the backend.
pub struct Request {
    pub model: String,
    pub history: Vec<Turn>,
    pub instructions: String,
    pub effort: Option<String>,
    pub stream: bool,
    pub include_usage: bool,
}

/// What a request says.
#[verifier::ext_equal]
pub struct RequestView {
    pub model: Seq<char>,
    pub history: Seq<TurnView>,
    pub instructions: Seq<char>,
    pub effort: Option<Seq<char>>,
    pub stream: bool,
    pub include_usage: bool,
}

impl View for Request {
    type V = RequestView;

    open spec fn view(&self) -> RequestView {
        RequestView {
            model: self.model@,
            history: turns(self.history@),
            instructions: self.instructions@,
            effort: optional_text(self.effort),
            stream: self.stream,
            include_usage: self.include_usage,
        }
    }
}

/// What a JSON value asks for, or the first reason to refuse it.
pub open spec fn request_of(value: JsonView, responses: bool) -> Result<RequestView, Seq<char>> {
    if !(value is Object) {
        Err("Request must be a JSON object"@)
    } else if parameters_check(value, responses) is Err {
        Err(parameters_check(value, responses)->Err_0)
    } else if model_of(value) is Err {
        Err(model_of(value)->Err_0)
    } else if stream_of(value) is Err {
        Err(stream_of(value)->Err_0)
    } else if fixed_check(value, responses) is Err {
        Err(fixed_check(value, responses)->Err_0)
    } else if own_instructions(value) is Err {
        Err(own_instructions(value)->Err_0)
    } else {
        let dialogue = dialogue_of(value, responses, own_instructions(value)->Ok_0);
        if dialogue is Err {
            Err(dialogue->Err_0)
        } else if effort_of(value, responses) is Err {
            Err(effort_of(value, responses)->Err_0)
        } else if usage_wanted(value) is Err {
            Err(usage_wanted(value)->Err_0)
        } else {
            Ok(
                RequestView {
                    model: model_of(value)->Ok_0,
                    history: dialogue->Ok_0.history,
                    instructions: dialogue->Ok_0.instructions,
                    effort: effort_of(value, responses)->Ok_0,
                    stream: stream_of(value)->Ok_0,
                    include_usage: usage_wanted(value)->Ok_0,
                },
            )
        }
    }
}

/// Reads the conversation of a request.
fn read_dialogue(value: &Json, responses: bool, instructions: String) -> (dialogue: Result<
    (String, Vec<Turn>),
    ApiError,
>)
    ensures
        ({
            let stated = dialogue_of(value@, responses, instructions@);
            match dialogue {
                Ok((text, history)) => stated == Ok::<ConversationView, Seq<char>>(
                    ConversationView { instructions: text@, history: turns(history@) },
                ),
                Err(error) => stated is Err && error@ == bad_request(stated->Err_0),
            }
        }),
{
    let input = if responses {
        value.at("input")
    } else {
        value.at("messages")
    };
    let ghost start = instructions@;
    let mut text = instructions;
    let mut history: Vec<Turn> = Vec::new();
    match input {
        Json::Text(content) if responses => {
            history.push(Turn { role: "user".to_owned(), content: content.clone() });
            assert(turns(history@) == seq![TurnView { role: "user"@, content: content@ }]);
        },
        Json::Array(messages) if messages.len() > 0 => {
            let ghost all = items_view(messages@);
            proof {
                lemma_items_view(messages@);
                assert(turns(history@) == Seq::<TurnView>::empty());
            }
            let mut i: usize = 0;
            while i < messages.len()
                invariant
                    i <= messages.len(),
                    start == instructions@,
                    all.len() == messages.len(),
                    forall|j: int| 0 <= j < messages.len() ==> #[trigger] all[j] == messages[j]@,
                    conversation_of(all.take(i as int), start) == Ok::<
                        ConversationView,
                        Seq<char>,
                    >(ConversationView { instructions: text@, history: turns(history@) }),
                    dialogue_of(value@, responses, start) == (match conversation_of(all, start) {
                        Ok(found) if found.history.len() == 0 => Err::<
                            ConversationView,
                            Seq<char>,
                        >("At least one user or assistant message is required"@),
                        other => other,
                    }),
                decreases messages.len() - i,
            {
                proof {
                    assert(all[i as int] == messages[i as int]@);
                    assert(all.take(i + 1).drop_last() == all.take(i as int));
                    if message_of(messages[i as int]@) is Err {
                        lemma_conversation_error(all, start, i + 1);
                    }
                }
                match read_message(&messages[i]) {
                    Err(error) => {
                        return Err(error);
                    },
                    Ok(turn) => {
                        if same_text(turn.role.as_str(), "system") || same_text(
                            turn.role.as_str(),
                            "developer",
                        ) {
                            let ghost earlier = text@;
                            text.push('\n');
                            text.append(turn.content.as_str());
                            assert(text@ == earlier + seq!['\n'] + turn.content@);
                        } else {
                            let ghost earlier = history@;
                            let ghost said = turn@;
                            history.push(turn);
                            assert(turns(history@) == turns(earlier).push(said));
                        }
                    },
                }
                i = i + 1;
            }
            assert(all.take(all.len() as int) == all);
        },
        _ => {
            return Err(ApiError::bad("A nonempty messages/input array is required"));
        },
    }
    if history.len() == 0 {
        Err(ApiError::bad("At least one user or assistant message is required"))
    } else {
        Ok((text, history))
    }
}

/// Reads the reasoning effort of a request.
fn read_effort_of(value: &Json, responses: bool) -> (effort: Result<Option<String>, ApiError>)
    ensures
        ({
            let stated = effort_of(value@, responses);
            match effort {
                Ok(found) => stated == Ok::<Option<Seq<char>>, Seq<char>>(optional_text(found)),
                Err(error) => stated is Err && error@ == bad_request(stated->Err_0),
            }
        }),
{
    if !responses {
        return read_effort(value.field("reasoning_effort"));
    }
    match value.field("reasoning") {
        None => Ok(None),
        Some(reasoning) => match reasoning {
            Json::Object(members) => if has_only_member(members, "effort") {
                read_effort(reasoning.field("effort"))
            } else {
                Err(ApiError::bad("Only reasoning.effort is supported"))
            },
            _ => Err(ApiError::bad("reasoning must be an object")),
        },
    }
}

/// Reads whether a stream ends with a report of the tokens used.
fn read_usage_wanted(value: &Json) -> (wanted: Result<bool, ApiError>)
    ensures
        match wanted {
            Ok(found) => usage_wanted(value@) == Ok::<bool, Seq<char>>(found),
            Err(error) => usage_wanted(value@) is Err && error@ == bad_request(
                usage_wanted(value@)->Err_0,
            ),
        },
{
    match value.field("stream_options") {
        None => Ok(false),
        Some(options) => match options {
            Json::Object(members) => if !has_only_member(members, "include_usage") {
                Err(ApiError::bad("Only stream_options.include_usage is supported"))
            } else {
                match options.field("include_usage") {
                    None => Ok(false),
                    Some(flag) => match flag.as_bool() {
                        Some(wanted) => Ok(wanted),
                        None => Err(ApiError::bad("include_usage must be boolean")),
                    },
                }
            },
            _ => Err(ApiError::bad("stream_options must be an object")),
        },
    }
}

/// Reads a request.
pub fn read_request(value: &Json, responses: bool) -> (request: Result<Request, ApiError>)
    ensures
        match request {
            Ok(found) => request_of(value@, responses) == Ok::<RequestView, Seq<char>>(found@),
            Err(error) => request_of(value@, responses) is Err && error@ == bad_request(
                request_of(value@, responses)->Err_0,
            ),
        },
{
    match value {
        Json::Object(_) => {},
        _ => {
            return Err(ApiError::bad("Request must be a JSON object"));
        },
    }
    match find_unsupported(value, responses) {
        Some(name) => {
            proof {
                lemma_first_unsupported(value@, responses, name@);
            }
            let mut reason = joined("Unsupported parameter: ", name.as_str());
            reason.append(". gprox supports text generation only; see README.");
            return Err(ApiError::bad(reason.as_str()));
        },
        None => {},
    }
    let model = match value.at("model").as_text() {
        Some(text) if !is_blank(text) => text.to_owned(),
        _ => {
            return Err(ApiError::bad("model is required; use GET /v1/models"));
        },
    };
    let stream = match value.field("stream") {
        None => false,
        Some(flag) => match flag.as_bool() {
            Some(stream) => stream,
            None => {
                return Err(ApiError::bad("stream must be boolean"));
            },
        },
    };
    if value.field("n").is_some() && !value.at("n").is_number(1) {
        return Err(ApiError::bad("Only n=1 is supported"));
    }
    if responses && value.field("store").is_some() {
        match value.at("store").as_bool() {
            Some(false) => {},
            _ => {
                return Err(
                    ApiError::bad("Only store=false is supported; responses are stateless"),
                );
            },
        }
    }
    let own = match value.field("instructions") {
        None => String::new(),
        Some(text) => match text.as_text() {
            Some(text) => text.to_owned(),
            None => {
                return Err(ApiError::bad("instructions must be a string"));
            },
        },
    };
    let (instructions, history) = match read_dialogue(value, responses, own) {
        Ok(dialogue) => dialogue,
        Err(error) => {
            return Err(error);
        },
    };
    let effort = match read_effort_of(value, responses) {
        Ok(effort) => effort,
        Err(error) => {
            return Err(error);
        },
    };
    let include_usage = match read_usage_wanted(value) {
        Ok(wanted) => wanted,
        Err(error) => {
            return Err(error);
        },
    };
    Ok(Request { model, history, instructions, effort, stream, include_usage })
}

/// A message as the backend reads it.
pub open spec fn turn_json(turn: TurnView) -> JsonView {
    JsonView::object().with("role"@, JsonView::Text(turn.role)).with(
        "content"@,
        JsonView::Text(turn.content),
    )
}

/// A conversation as the backend reads it.
pub open spec fn history_json(history: Seq<TurnView>) -> JsonView {
    JsonView::Array(history.map_values(|turn: TurnView| turn_json(turn)))
}

/// Writes a conversation down as JSON.
fn write_history(history: &Vec<Turn>) -> (value: Json)
    ensures
        value@ == history_json(turns(history@)),
{
    let mut items: Vec<Json> = Vec::new();
    let mut i: usize = 0;
    while i < history.len()
        invariant
            i <= history.len(),
            items.len() == i,
            forall|j: int| 0 <= j < i ==> #[trigger] items[j]@ == turn_json(history[j]@),
        decreases history.len() - i,
    {
        items.push(
            Json::object().with("role", Json::text(history[i].role.as_str())).with(
                "content",
                Json::text(history[i].content.as_str()),
            ),
        );
        i = i + 1;
    }
    proof {
        lemma_items_view(items@);
        assert(items_view(items@) =~= turns(history@).map_values(
            |turn: TurnView| turn_json(turn),
        ));
    }
    Json::Array(items)
}

/// The prompt of a request.
#[verifier::ext_equal]
pub struct PromptView {
    pub model: Seq<char>,
    pub text: Seq<char>,
    pub instructions: Seq<char>,
    pub effort: Option<Seq<char>>,
}

impl View for Prompt {
    type V = PromptView;

    open spec fn view(&self) -> PromptView {
        PromptView {
            model: self.model@,
            text: self.text@,
            instructions: self.instructions@,
            effort: optional_text(self.effort),
        }
    }
}

/// The prompt that a request is turned into: the conversation becomes a JSON text.
pub open spec fn prompt_of(request: RequestView) -> PromptView {
    PromptView {
        model: request.model,
        text: json_text(history_json(request.history)),
        instructions: request.instructions,
        effort: request.effort,
    }
}

/// Reads a request and writes its conversation down for the backend.
pub fn parse(value: &Json, responses: bool) -> (parsed: Result<Parsed, ApiError>)
    ensures
        match parsed {
            Ok(found) => {
                &&& request_of(value@, responses) is Ok
                &&& found.prompt@ == prompt_of(request_of(value@, responses)->Ok_0)
                &&& found.stream == request_of(value@, responses)->Ok_0.stream
                &&& found.include_usage == request_of(value@, responses)->Ok_0.include_usage
                &&& parsed_json(found.prompt.text@) == Some(
                    history_json(request_of(value@, responses)->Ok_0.history),
                )
            },
            Err(error) => request_of(value@, responses) is Err && error@ == bad_request(
                request_of(value@, responses)->Err_0,
            ),
        },
{
    match read_request(value, responses) {
        Err(error) => Err(error),
        Ok(request) => {
            let history = write_history(&request.history);
            proof {
                lemma_history_plain(turns(request.history@));
            }
            Ok(
                Parsed {
                    prompt: Prompt {
                        model: request.model,
                        text: history.render(),
                        instructions: request.instructions,
                        effort: request.effort,
                    },
                    stream: request.stream,
                    include_usage: request.include_usage,
                },
            )
        },
    }
}

/// What a request becomes, by its body: the JSON value that it holds, or what is wrong
/// with it.
pub fn accept(body: Result<serde_json::Value, String>, responses: bool) -> (parsed: Result<
    Parsed,
    ApiError,
>)
    ensures
        ({
            let stated = match body {
                Ok(value) => request_of(value_view(value), responses),
                Err(reason) => Err(reason@),
            };
            match parsed {
                Ok(found) => {
                    &&& stated is Ok
                    &&& found.prompt@ == prompt_of(stated->Ok_0)
                    &&& found.stream == stated->Ok_0.stream
                    &&& found.include_usage == stated->Ok_0.include_usage
                    &&& parsed_json(found.prompt.text@) == Some(history_json(stated->Ok_0.history))
                },
                Err(error) => stated is Err && error@ == bad_request(stated->Err_0),
            }
        }),
{
    match body {
        Ok(value) => parse(&Json::from_value(value), responses),
        Err(reason) => Err(ApiError::bad(reason.as_str())),
    }
}

proof fn lemma_history_plain(history: Seq<TurnView>)
    ensures
        plain(history_json(history), 127),
{
    let items = history.map_values(|turn: TurnView| turn_json(turn));
    reveal_strlit("$serde_json::private::RawValue");
    reveal_strlit("role");
    reveal_strlit("content");
    assert(raw_name().len() == 30 && "role"@.len() == 4 && "content"@.len() == 7);
    assert forall|i: int| 0 <= i < items.len() implies plain(#[trigger] items[i], 126) by {
        assert(items[i] == turn_json(history[i]));
        reveal_with_fuel(plain, 3);
    }
}

// ---------------------------------------------------------------------------
// Laws

/// A parameter that the gateway does not support is never ignored: a request that sets
/// it is refused. Where several are set, the refusal names the one that comes first.
pub proof fn law_unsupported_parameter_is_refused(
    value: JsonView,
    responses: bool,
    name: Seq<char>,
)
    requires
        value is Object,
        unsupported(value, responses, name),
    ensures
        request_of(value, responses) is Err,
        first_unsupported(value, responses, name) ==> request_of(value, responses) == Err::<
            RequestView,
            Seq<char>,
        >(unsupported_message(name)),
{
    if first_unsupported(value, responses, name) {
        lemma_first_unsupported(value, responses, name);
    }
}

/// Only one completion is offered, nothing is stored, and `stream` is a boolean: a
/// request that asks for anything else is refused.
pub proof fn law_fixed_options_are_enforced(value: JsonView, responses: bool)
    requires
        value is Object,
    ensures
        value.field("n"@) is Some && value.at("n"@) != JsonView::Integer(1) ==> request_of(
            value,
            responses,
        ) is Err,
        responses && value.field("store"@) is Some && value.at("store"@) != JsonView::Bool(false)
            ==> request_of(value, responses) is Err,
        value.field("stream"@) is Some && !(value.at("stream"@) is Bool) ==> request_of(
            value,
            responses,
        ) is Err,
{
}

/// The parameters that decide about an answer.
pub open spec fn read_parameter(responses: bool, name: Seq<char>) -> bool {
    ||| name == "model"@
    ||| name == "stream"@
    ||| name == "n"@
    ||| name == "instructions"@
    ||| name == "stream_options"@
    ||| responses && (name == "store"@ || name == "input"@ || name == "reasoning"@)
    ||| !responses && (name == "messages"@ || name == "reasoning_effort"@)
}

/// A parameter that decides nothing, such as `user` or `metadata`, changes nothing; neither
/// does one that is not supported and set to `null`.
pub proof fn law_unread_parameter_changes_nothing(
    value: JsonView,
    responses: bool,
    name: Seq<char>,
    added: JsonView,
)
    requires
        value is Object,
        value.field(name) is None,
        !read_parameter(responses, name),
        allowed_parameter(responses, name) || added == JsonView::Null,
    ensures
        request_of(value.with(name, added), responses) == request_of(value, responses),
{
    let more = value.with(name, added);
    assert forall|other: Seq<char>| other != name implies #[trigger] more.field(other)
        == value.field(other) by {}
    assert forall|other: Seq<char>| #[trigger] unsupported(more, responses, other) == unsupported(
        value,
        responses,
        other,
    ) by {
        if other != name {
            assert(more.field(other) == value.field(other));
        }
    }
    assert(unsupported_names(more, responses) =~= unsupported_names(value, responses));
    assert(parameters_check(more, responses) == parameters_check(value, responses)) by {
        if exists|other: Seq<char>| unsupported(more, responses, other) {
            let other = choose|other: Seq<char>| unsupported(more, responses, other);
            assert(unsupported(value, responses, other));
        }
        if exists|other: Seq<char>| unsupported(value, responses, other) {
            let other = choose|other: Seq<char>| unsupported(value, responses, other);
            assert(unsupported(more, responses, other));
        }
    }
    assert(more.field("model"@) == value.field("model"@));
    assert(more.field("stream"@) == value.field("stream"@));
    assert(more.field("n"@) == value.field("n"@));
    assert(more.field("instructions"@) == value.field("instructions"@));
    assert(more.field("stream_options"@) == value.field("stream_options"@));
    if responses {
        assert(more.field("store"@) == value.field("store"@));
        assert(more.field("input"@) == value.field("input"@));
        assert(more.field("reasoning"@) == value.field("reasoning"@));
    } else {
        assert(more.field("messages"@) == value.field("messages"@));
        assert(more.field("reasoning_effort"@) == value.field("reasoning_effort"@));
    }
}

/// The messages of a list, each of which is acceptable.
pub open spec fn messages_of(messages: Seq<JsonView>) -> Seq<TurnView> {
    messages.map_values(|message: JsonView| message_of(message)->Ok_0)
}

/// The instructions of a list of messages, each on a line of its own.
pub open spec fn instruction_lines(messages: Seq<TurnView>) -> Seq<char>
    decreases messages.len(),
{
    if messages.len() == 0 {
        Seq::empty()
    } else if instructing_role(messages.last().role) {
        instruction_lines(messages.drop_last()) + seq!['\n'] + messages.last().content
    } else {
        instruction_lines(messages.drop_last())
    }
}

/// The history of an accepted conversation is what users and assistants said, complete
/// and in order; what the system and developers said follows the instructions of the
/// request, complete and in order.
pub proof fn law_conversation_is_preserved(messages: Seq<JsonView>, instructions: Seq<char>)
    requires
        conversation_of(messages, instructions) is Ok,
    ensures
        forall|i: int| 0 <= i < messages.len() ==> message_of(#[trigger] messages[i]) is Ok,
        conversation_of(messages, instructions)->Ok_0.history == messages_of(messages).filter(
            |turn: TurnView| !instructing_role(turn.role),
        ),
        conversation_of(messages, instructions)->Ok_0.instructions == instructions
            + instruction_lines(messages_of(messages)),
    decreases messages.len(),
{
    let spoken = |turn: TurnView| !instructing_role(turn.role);
    let all = messages_of(messages);
    reveal(Seq::filter);
    if messages.len() > 0 {
        let rest = messages.drop_last();
        law_conversation_is_preserved(rest, instructions);
        assert(all.drop_last() == messages_of(rest));
        assert(all.last() == message_of(messages.last())->Ok_0);
        assert forall|i: int| 0 <= i < messages.len() implies message_of(
            #[trigger] messages[i],
        ) is Ok by {
            if i < rest.len() {
                assert(message_of(rest[i]) is Ok);
            }
        }
        if instructing_role(all.last().role) {
            assert(instructions + instruction_lines(all) == instructions + instruction_lines(
                all.drop_last(),
            ) + seq!['\n'] + all.last().content);
        }
    } else {
        assert(instructions + instruction_lines(all) == instructions);
    }
}

/// One message that is refused, such as one that calls tools, has the whole request
/// refused.
pub proof fn law_refused_message_refuses_the_request(
    value: JsonView,
    responses: bool,
    messages: Seq<JsonView>,
    i: int,
)
    requires
        value is Object,
        value.at(
            if responses {
                "input"@
            } else {
                "messages"@
            },
        ) == JsonView::Array(messages),
        0 <= i < messages.len(),
        message_of(messages[i]) is Err,
    ensures
        request_of(value, responses) is Err,
{
    if own_instructions(value) is Ok {
        let instructions = own_instructions(value)->Ok_0;
        assert(messages.take(i + 1).last() == messages[i]);
        assert(conversation_of(messages.take(i + 1), instructions) is Err);
        lemma_conversation_error(messages, instructions, i + 1);
    }
}

/// One part of a message that is not text, such as an image, has the message refused.
pub proof fn law_only_text_parts_are_accepted(message: JsonView, parts: Seq<JsonView>, i: int)
    requires
        message.at("content"@) == JsonView::Array(parts),
        0 <= i < parts.len(),
        part_text(parts[i]) is Err,
    ensures
        message_of(message) is Err,
{
    assert(parts.take(i + 1).last() == parts[i]);
    assert(parts_text(parts.take(i + 1)) is Err);
    lemma_parts_error(parts, i + 1);
}

/// The message of a user who says this.
pub open spec fn user_message(text: Seq<char>) -> JsonView {
    JsonView::object().with("role"@, JsonView::Text("user"@)).with("content"@, JsonView::Text(text))
}

/// A text input counts as one message of a user: the request is the same as one whose
/// input is the list of that message alone.
pub proof fn law_text_input_is_one_user_message(value: JsonView, text: Seq<char>)
    requires
        value is Object,
    ensures
        request_of(value.with("input"@, JsonView::Text(text)), true) == request_of(
            value.with("input"@, JsonView::Array(seq![user_message(text)])),
            true,
        ),
{
    let short = value.with("input"@, JsonView::Text(text));
    let messages = seq![user_message(text)];
    let long = value.with("input"@, JsonView::Array(messages));
    assert forall|name: Seq<char>| name != "input"@ implies #[trigger] short.field(name)
        == long.field(name) by {}
    assert forall|name: Seq<char>| #[trigger] unsupported(short, true, name) == unsupported(
        long,
        true,
        name,
    ) by {
        if name != "input"@ {
            assert(short.field(name) == long.field(name));
        }
    }
    assert(unsupported_names(short, true) =~= unsupported_names(long, true));
    assert(parameters_check(short, true) == parameters_check(long, true)) by {
        if exists|name: Seq<char>| unsupported(short, true, name) {
            let name = choose|name: Seq<char>| unsupported(short, true, name);
            assert(unsupported(long, true, name));
        }
        if exists|name: Seq<char>| unsupported(long, true, name) {
            let name = choose|name: Seq<char>| unsupported(long, true, name);
            assert(unsupported(short, true, name));
        }
    }
    reveal_strlit("input");
    reveal_strlit("model");
    reveal_strlit("stream");
    reveal_strlit("n");
    reveal_strlit("store");
    reveal_strlit("instructions");
    reveal_strlit("reasoning");
    reveal_strlit("stream_options");
    assert("input"@.len() == 5 && "model"@.len() == 5 && "store"@.len() == 5);
    assert("input"@[0] == 'i' && "model"@[0] == 'm' && "store"@[0] == 's');
    assert("stream"@.len() == 6 && "n"@.len() == 1 && "instructions"@.len() == 12
        && "reasoning"@.len() == 9 && "stream_options"@.len() == 14);
    assert(short.field("model"@) == long.field("model"@));
    assert(short.field("stream"@) == long.field("stream"@));
    assert(short.field("n"@) == long.field("n"@));
    assert(short.field("store"@) == long.field("store"@));
    assert(short.field("instructions"@) == long.field("instructions"@));
    assert(short.field("reasoning"@) == long.field("reasoning"@));
    assert(short.field("stream_options"@) == long.field("stream_options"@));
    reveal_strlit("role");
    reveal_strlit("content");
    reveal_strlit("tool_calls");
    reveal_strlit("function_call");
    reveal_strlit("type");
    assert("role"@.len() == 4 && "type"@.len() == 4 && "role"@[0] == 'r' && "type"@[0] == 't');
    assert("content"@.len() == 7 && "tool_calls"@.len() == 10 && "function_call"@.len() == 13);
    let said = TurnView { role: "user"@, content: text };
    assert(message_of(user_message(text)) == Ok::<TurnView, Seq<char>>(said));
    reveal_strlit("user");
    reveal_strlit("system");
    reveal_strlit("developer");
    assert("user"@.len() == 4 && "system"@.len() == 6 && "developer"@.len() == 9);
    if own_instructions(short) is Ok {
        let instructions = own_instructions(short)->Ok_0;
        assert(messages.drop_last() =~= Seq::<JsonView>::empty());
        assert(conversation_of(messages.drop_last(), instructions) == Ok::<
            ConversationView,
            Seq<char>,
        >(ConversationView { instructions, history: Seq::empty() }));
        assert(Seq::<TurnView>::empty().push(said) =~= seq![said]);
        assert(conversation_of(messages, instructions) == Ok::<ConversationView, Seq<char>>(
            ConversationView { instructions, history: seq![said] },
        ));
        assert(dialogue_of(short, true, instructions) == dialogue_of(long, true, instructions));
    }
}

// ---------------------------------------------------------------------------
// What is accepted, member by member

/// The names of the parameters that clients may set.
pub open spec fn is_offered(responses: bool, name: Seq<char>) -> bool {
    ||| seq!["model"@, "stream"@, "metadata"@, "user"@].contains(name)
    ||| responses && seq!["input"@, "instructions"@, "reasoning"@, "store"@].contains(name)
    ||| !responses && seq!["messages"@, "stream_options"@, "reasoning_effort"@, "n"@].contains(name)
}

/// The reasoning efforts that clients may ask for.
pub open spec fn offered_efforts() -> Seq<Seq<char>> {
    seq!["none"@, "minimal"@, "low"@, "medium"@, "high"@, "xhigh"@, "max"@, "ultra"@]
}

/// The effort that a request gives.
pub open spec fn given_effort(value: JsonView, responses: bool) -> JsonView {
    if responses {
        value.at("reasoning"@).at("effort"@)
    } else {
        value.at("reasoning_effort"@)
    }
}

/// A text in which something can be read.
pub open spec fn readable(text: Seq<char>) -> bool {
    exists|i: int| 0 <= i < text.len() && !white_space(#[trigger] text[i])
}

proof fn lemma_offered(responses: bool, name: Seq<char>)
    ensures
        is_offered(responses, name) <==> allowed_parameter(responses, name),
{
    let all = seq!["model"@, "stream"@, "metadata"@, "user"@];
    let new = seq!["input"@, "instructions"@, "reasoning"@, "store"@];
    let old_style = seq!["messages"@, "stream_options"@, "reasoning_effort"@, "n"@];
    assert(all[0] == "model"@ && all[1] == "stream"@ && all[2] == "metadata"@ && all[3] == "user"@);
    assert(new[0] == "input"@ && new[1] == "instructions"@ && new[2] == "reasoning"@ && new[3]
        == "store"@);
    assert(old_style[0] == "messages"@ && old_style[1] == "stream_options"@ && old_style[2]
        == "reasoning_effort"@ && old_style[3] == "n"@);
}

proof fn lemma_efforts(effort: Seq<char>)
    ensures
        offered_efforts().contains(effort) <==> known_effort(effort),
{
    let all = offered_efforts();
    assert(all[0] == "none"@ && all[1] == "minimal"@ && all[2] == "low"@ && all[3] == "medium"@
        && all[4] == "high"@ && all[5] == "xhigh"@ && all[6] == "max"@ && all[7] == "ultra"@);
}

/// An accepted request is what was given, member by member: its model is the one named,
/// streamed it is exactly where `stream` is true, its effort is the one given, and tokens are
/// reported in a stream exactly where that was asked for. What was set is offered, and what
/// has only one value has it.
pub proof fn law_accepted_request_is_as_given(value: JsonView, responses: bool, name: Seq<char>)
    requires
        request_of(value, responses) is Ok,
    ensures
        ({
            let request = request_of(value, responses)->Ok_0;
            let effort = given_effort(value, responses);
            &&& value.at("model"@) == JsonView::Text(request.model)
            &&& readable(request.model)
            &&& (request.stream <==> value.at("stream"@) == JsonView::Bool(true))
            &&& value.field("stream"@) is None || value.at("stream"@) is Bool
            &&& (request.include_usage <==> value.at("stream_options"@).at("include_usage"@)
                == JsonView::Bool(true))
            &&& (request.effort is Some <==> effort is Text)
            &&& request.effort is Some ==> effort == JsonView::Text(request.effort->0)
                && offered_efforts().contains(request.effort->0)
            &&& value.field("n"@) is None || value.at("n"@) == JsonView::Integer(1)
            &&& responses ==> value.field("store"@) is None || value.at("store"@)
                == JsonView::Bool(false)
            &&& value.at(name) != JsonView::Null ==> is_offered(responses, name)
            &&& request.history.len() > 0
        }),
{
    let request = request_of(value, responses)->Ok_0;
    lemma_offered(responses, name);
    if value.at(name) != JsonView::Null && !allowed_parameter(responses, name) {
        assert(unsupported(value, responses, name));
    }
    if request.effort is Some {
        lemma_efforts(request.effort->0);
    }
    assert(!blank(request.model));
    let i = choose|i: int|
        0 <= i < request.model.len() && !white_space(#[trigger] request.model[i]);
    assert(!white_space(request.model[i]));
}

/// Whether the members of a request that are no conversation are such as are accepted.
pub open spec fn well_set(value: JsonView, responses: bool) -> bool {
    &&& value is Object
    &&& forall|name: Seq<char>| #[trigger]
        value.at(name) != JsonView::Null ==> is_offered(responses, name)
    &&& value.at("model"@) is Text && readable(value.at("model"@)->Text_0)
    &&& value.field("stream"@) is None || value.at("stream"@) is Bool
    &&& value.field("n"@) is None || value.at("n"@) == JsonView::Integer(1)
    &&& responses ==> value.field("store"@) is None || value.at("store"@) == JsonView::Bool(false)
    &&& value.field("instructions"@) is None || value.at("instructions"@) is Text
    &&& responses ==> match value.field("reasoning"@) {
        None => true,
        Some(reasoning) => reasoning is Object && forall|name: Seq<char>| #[trigger]
            reasoning.field(name) is Some ==> name == "effort"@ && reasoning.at(name) is Text
                && offered_efforts().contains(reasoning.at(name)->Text_0),
    }
    &&& !responses ==> match value.field("reasoning_effort"@) {
        None => true,
        Some(effort) => effort is Text && offered_efforts().contains(effort->Text_0),
    }
    &&& match value.field("stream_options"@) {
        None => true,
        Some(options) => options is Object && forall|name: Seq<char>| #[trigger]
            options.field(name) is Some ==> name == "include_usage"@ && options.at(name) is Bool,
    }
}

/// The instructions that a request gives beside its messages.
pub open spec fn given_instructions(value: JsonView) -> Seq<char> {
    match value.at("instructions"@) {
        JsonView::Text(text) => text,
        _ => Seq::empty(),
    }
}

/// A request is accepted where its members are such as are offered and its messages are a
/// conversation in which somebody speaks; its history and its instructions are those of that
/// conversation, behind the instructions that it gives itself.
pub proof fn law_offered_request_is_accepted(
    value: JsonView,
    responses: bool,
    messages: Seq<JsonView>,
)
    requires
        well_set(value, responses),
        messages.len() > 0,
        value.at(
            if responses {
                "input"@
            } else {
                "messages"@
            },
        ) == JsonView::Array(messages),
        conversation_of(messages, given_instructions(value)) is Ok,
        conversation_of(messages, given_instructions(value))->Ok_0.history.len() > 0,
    ensures
        request_of(value, responses) is Ok,
        request_of(value, responses)->Ok_0.history == conversation_of(
            messages,
            given_instructions(value),
        )->Ok_0.history,
        request_of(value, responses)->Ok_0.instructions == conversation_of(
            messages,
            given_instructions(value),
        )->Ok_0.instructions,
{
    assert forall|name: Seq<char>| !#[trigger] unsupported(value, responses, name) by {
        lemma_offered(responses, name);
        if value.at(name) != JsonView::Null {
            assert(is_offered(responses, name));
        }
    }
    let model = value.at("model"@)->Text_0;
    let i = choose|i: int| 0 <= i < model.len() && !white_space(#[trigger] model[i]);
    assert(!blank(model));
    if responses && value.field("reasoning"@) is Some {
        let reasoning = value.at("reasoning"@);
        assert(only_member(reasoning->Object_0, "effort"@)) by {
            assert forall|name: Seq<char>| #[trigger]
                reasoning->Object_0.contains_key(name) implies name == "effort"@ by {
                assert(reasoning.field(name) is Some);
            }
        }
        if reasoning.field("effort"@) is Some {
            lemma_efforts(reasoning.at("effort"@)->Text_0);
        }
    }
    if !responses && value.field("reasoning_effort"@) is Some {
        lemma_efforts(value.at("reasoning_effort"@)->Text_0);
    }
    if value.field("stream_options"@) is Some {
        let options = value.at("stream_options"@);
        assert(only_member(options->Object_0, "include_usage"@)) by {
            assert forall|name: Seq<char>| #[trigger]
                options->Object_0.contains_key(name) implies name == "include_usage"@ by {
                assert(options.field(name) is Some);
            }
        }
        if options.field("include_usage"@) is Some {
        }
    }
    assert(own_instructions(value) == Ok::<Seq<char>, Seq<char>>(given_instructions(value)));
}

/// The four roles that a message may have.
pub open spec fn offered_roles() -> Seq<Seq<char>> {
    seq!["system"@, "developer"@, "user"@, "assistant"@]
}

proof fn lemma_roles(role: Seq<char>)
    ensures
        offered_roles().contains(role) <==> instructing_role(role) || speaking_role(role),
{
    let all = offered_roles();
    assert(all[0] == "system"@ && all[1] == "developer"@ && all[2] == "user"@ && all[3]
        == "assistant"@);
}

/// An accepted message is what was given: its role is the one named, and a content that is a
/// text is that text. A message whose role is offered and whose content is a text is accepted,
/// unless it calls tools or is no message.
pub proof fn law_message_is_as_given(message: JsonView)
    ensures
        message_of(message) is Ok ==> {
            let turn = message_of(message)->Ok_0;
            &&& message.at("role"@) == JsonView::Text(turn.role)
            &&& offered_roles().contains(turn.role)
            &&& message.at("content"@) is Text ==> message.at("content"@) == JsonView::Text(
                turn.content,
            )
            &&& message.at("content"@) is Text || message.at("content"@) is Array
            &&& message.field("tool_calls"@) is None && message.field("function_call"@) is None
            &&& message.field("type"@) is None || message.at("type"@) == JsonView::Text("message"@)
        },
        message.at("role"@) is Text && offered_roles().contains(message.at("role"@)->Text_0)
            && message.at("content"@) is Text && message.field("tool_calls"@) is None
            && message.field("function_call"@) is None && (message.field("type"@) is None
            || message.at("type"@) == JsonView::Text("message"@)) ==> message_of(message) is Ok,
{
    if message.at("role"@) is Text {
        lemma_roles(message.at("role"@)->Text_0);
    }
}

/// A content of several parts is the texts of the parts, one after the other, as they are:
/// a part is its own text, and a list of parts is the text of its beginning and then that of
/// its rest.
pub proof fn law_content_is_the_text_of_its_parts(
    left: Seq<JsonView>,
    right: Seq<JsonView>,
    part: JsonView,
)
    ensures
        content_text(JsonView::Array(Seq::empty())) == Ok::<Seq<char>, Seq<char>>(Seq::empty()),
        part.at("text"@) is Text && (part.at("type"@) == JsonView::Text("text"@) || part.at(
            "type"@,
        ) == JsonView::Text("input_text"@) || part.at("type"@) == JsonView::Text("output_text"@))
            ==> content_text(JsonView::Array(seq![part])) == Ok::<Seq<char>, Seq<char>>(
            part.at("text"@)->Text_0,
        ),
        content_text(JsonView::Array(left)) is Ok && content_text(JsonView::Array(right)) is Ok
            ==> content_text(JsonView::Array(left + right)) == Ok::<Seq<char>, Seq<char>>(
            content_text(JsonView::Array(left))->Ok_0 + content_text(JsonView::Array(right))->Ok_0,
        ),
        content_text(JsonView::Array(left + right)) is Ok ==> content_text(
            JsonView::Array(left),
        ) is Ok && content_text(JsonView::Array(right)) is Ok,
    decreases right.len(),
{
    assert(seq![part].drop_last() =~= Seq::<JsonView>::empty());
    assert(parts_text(seq![part].drop_last()) == Ok::<Seq<char>, Seq<char>>(Seq::empty()));
    if part.at("text"@) is Text {
        assert(Seq::<char>::empty() + part.at("text"@)->Text_0 =~= part.at("text"@)->Text_0);
    }
    if right.len() == 0 {
        assert(left + right =~= left);
        if parts_text(left) is Ok {
            assert(parts_text(left)->Ok_0 + Seq::<char>::empty() =~= parts_text(left)->Ok_0);
        }
    } else {
        law_content_is_the_text_of_its_parts(left, right.drop_last(), part);
        assert((left + right).drop_last() =~= left + right.drop_last());
        assert((left + right).last() == right.last());
        if parts_text(left) is Ok && parts_text(right) is Ok {
            assert(parts_text(left)->Ok_0 + parts_text(right.drop_last())->Ok_0 + part_text(
                right.last(),
            )->Ok_0 =~= parts_text(left)->Ok_0 + parts_text(right)->Ok_0);
        }
    }
}

/// What a message adds to a conversation: that of a user or an assistant is said next, as it
/// is; that of the system or a developer is a new line of the instructions, as it is.
pub proof fn law_message_adds_itself(
    earlier: Seq<JsonView>,
    message: JsonView,
    instructions: Seq<char>,
)
    requires
        conversation_of(earlier, instructions) is Ok,
        message_of(message) is Ok,
    ensures
        conversation_of(earlier.push(message), instructions) is Ok,
        ({
            let before = conversation_of(earlier, instructions)->Ok_0;
            let after = conversation_of(earlier.push(message), instructions)->Ok_0;
            let turn = message_of(message)->Ok_0;
            &&& turn.role == "user"@ || turn.role == "assistant"@ ==> after.history
                == before.history.push(turn) && after.instructions == before.instructions
            &&& turn.role == "system"@ || turn.role == "developer"@ ==> after.history
                == before.history && after.instructions == before.instructions + seq!['\n']
                + turn.content
        }),
        conversation_of(Seq::empty(), instructions)->Ok_0.instructions == instructions,
        conversation_of(Seq::empty(), instructions)->Ok_0.history.len() == 0,
{
    assert(earlier.push(message).drop_last() =~= earlier);
    reveal_strlit("user");
    reveal_strlit("assistant");
    reveal_strlit("system");
    reveal_strlit("developer");
    assert("user"@.len() == 4 && "assistant"@.len() == 9 && "system"@.len() == 6
        && "developer"@.len() == 9);
    assert("assistant"@[0] == 'a' && "developer"@[0] == 'd');
}

/// The text of a prompt is the history, message by message: as many values as there are
/// messages, each with its role and its content as they are. The rest of the prompt is the
/// request's own.
pub proof fn law_prompt_holds_the_history(request: RequestView, i: int)
    requires
        0 <= i < request.history.len(),
    ensures
        prompt_of(request).text == json_text(history_json(request.history)),
        prompt_of(request).model == request.model,
        prompt_of(request).instructions == request.instructions,
        prompt_of(request).effort == request.effort,
        history_json(request.history).count() == request.history.len(),
        history_json(request.history).item(i).at("role"@) == JsonView::Text(
            request.history[i].role,
        ),
        history_json(request.history).item(i).at("content"@) == JsonView::Text(
            request.history[i].content,
        ),
{
    lemma_names();
}

/// A text input is the one thing that was said, as it is, by a user.
pub proof fn law_text_input_is_said_as_it_is(value: JsonView, text: Seq<char>)
    requires
        request_of(value, true) is Ok,
        value.at("input"@) == JsonView::Text(text),
    ensures
        request_of(value, true)->Ok_0.history.len() == 1,
        request_of(value, true)->Ok_0.history[0].role == "user"@,
        request_of(value, true)->Ok_0.history[0].content == text,
        request_of(value, true)->Ok_0.instructions == given_instructions(value),
{
}

/// A refusal for a parameter names one that is set and not offered, and none that is not
/// offered comes before it.
pub proof fn law_refusal_names_the_parameter(value: JsonView, responses: bool, name: Seq<char>)
    requires
        value is Object,
        value.at(name) != JsonView::Null,
        !is_offered(responses, name),
        forall|other: Seq<char>| #[trigger]
            value.at(other) != JsonView::Null && !is_offered(responses, other) ==> !before(
                other,
                name,
            ),
    ensures
        request_of(value, responses) == Err::<RequestView, Seq<char>>(
            "Unsupported parameter: "@ + name
                + ". gprox supports text generation only; see README."@,
        ),
{
    lemma_offered(responses, name);
    assert forall|other: Seq<char>| #[trigger] unsupported(value, responses, other) implies !before(
        other,
        name,
    ) by {
        lemma_offered(responses, other);
        assert(value.at(other) != JsonView::Null);
    }
    lemma_first_unsupported(value, responses, name);
}

/// A message of another role is refused in the name of that role.
pub proof fn law_other_roles_are_refused(message: JsonView, role: Seq<char>, content: Seq<char>)
    requires
        message.at("role"@) == JsonView::Text(role),
        !offered_roles().contains(role),
        message.at("content"@) == JsonView::Text(content),
        message.field("tool_calls"@) is None,
        message.field("function_call"@) is None,
        message.field("type"@) is None,
    ensures
        message_of(message) == Err::<TurnView, Seq<char>>("Unsupported message role: "@ + role),
{
    lemma_roles(role);
}

/// What is accepted is well set: every member of an accepted request is such as is offered.
pub proof fn law_accepted_request_is_well_set(value: JsonView, responses: bool)
    requires
        request_of(value, responses) is Ok,
    ensures
        well_set(value, responses),
{
    assert forall|name: Seq<char>| #[trigger] value.at(name) != JsonView::Null implies is_offered(
        responses,
        name,
    ) by {
        lemma_offered(responses, name);
        if !allowed_parameter(responses, name) {
            assert(unsupported(value, responses, name));
        }
    }
    law_accepted_request_is_as_given(value, responses, "model"@);
    if responses && value.field("reasoning"@) is Some {
        let reasoning = value.at("reasoning"@);
        assert forall|name: Seq<char>| #[trigger] reasoning.field(name) is Some implies name
            == "effort"@ && reasoning.at(name) is Text && offered_efforts().contains(
            reasoning.at(name)->Text_0,
        ) by {
            assert(reasoning->Object_0.contains_key(name));
            lemma_efforts(reasoning.at(name)->Text_0);
        }
    }
    if !responses && value.field("reasoning_effort"@) is Some {
        lemma_efforts(value.at("reasoning_effort"@)->Text_0);
    }
    if value.field("stream_options"@) is Some {
        let options = value.at("stream_options"@);
        assert forall|name: Seq<char>| #[trigger] options.field(name) is Some implies name
            == "include_usage"@ && options.at(name) is Bool by {
            assert(options->Object_0.contains_key(name));
        }
    }
}

/// The history and the instructions of an accepted request are those of all its messages, behind
/// the instructions that it gives itself; there is at least one message, and somebody speaks.
pub proof fn law_accepted_conversation_is_the_given_one(value: JsonView, responses: bool)
    requires
        request_of(value, responses) is Ok,
    ensures
        ({
            let request = request_of(value, responses)->Ok_0;
            let input = value.at(
                if responses {
                    "input"@
                } else {
                    "messages"@
                },
            );
            let said = conversation_of(input->Array_0, given_instructions(value));
            &&& input is Array || responses && input is Text
            &&& input is Array ==> {
                &&& input->Array_0.len() > 0
                &&& said is Ok
                &&& request.history == said->Ok_0.history
                &&& request.instructions == said->Ok_0.instructions
            }
            &&& request.history.len() > 0
        }),
{
    assert(own_instructions(value) == Ok::<Seq<char>, Seq<char>>(given_instructions(value)));
}

/// A text alone is accepted as the input of a request that is well set, whatever the text is.
pub proof fn law_text_input_is_accepted(value: JsonView)
    requires
        well_set(value, true),
        value.at("input"@) is Text,
    ensures
        request_of(value, true) is Ok,
{
    let text = value.at("input"@)->Text_0;
    let long = value.with("input"@, JsonView::Array(seq![user_message(text)]));
    assert(value.with("input"@, JsonView::Text(text)) =~= value) by {
        assert(value->Object_0.insert("input"@, JsonView::Text(text)) =~= value->Object_0);
    }
    law_text_input_is_one_user_message(value, text);
    lemma_names();
    lemma_offered(true, "input"@);
    assert forall|name: Seq<char>| name != "input"@ implies #[trigger] long.field(name)
        == value.field(name) by {}
    assert(well_set(long, true)) by {
        assert forall|name: Seq<char>| #[trigger] long.at(name) != JsonView::Null implies is_offered(
            true,
            name,
        ) by {
            if name != "input"@ {
                assert(long.field(name) == value.field(name));
                assert(value.at(name) != JsonView::Null);
            }
        }
        assert(long.field("model"@) == value.field("model"@));
        assert(long.field("stream"@) == value.field("stream"@));
        assert(long.field("n"@) == value.field("n"@));
        assert(long.field("store"@) == value.field("store"@));
        assert(long.field("instructions"@) == value.field("instructions"@));
        assert(long.field("reasoning"@) == value.field("reasoning"@));
        assert(long.field("stream_options"@) == value.field("stream_options"@));
    }
    let messages = seq![user_message(text)];
    let nothing = Seq::<JsonView>::empty();
    let instructions = given_instructions(long);
    assert(offered_roles()[2] == "user"@);
    law_message_is_as_given(user_message(text));
    assert(conversation_of(nothing, instructions) is Ok);
    law_message_adds_itself(nothing, user_message(text), instructions);
    assert(nothing.push(user_message(text)) =~= messages);
    law_offered_request_is_accepted(long, true, messages);
}

/// A conversation without messages is accepted as what it is; one more message is accepted
/// exactly where it is acceptable by itself.
pub proof fn law_conversation_goes_message_by_message(
    earlier: Seq<JsonView>,
    message: JsonView,
    instructions: Seq<char>,
)
    ensures
        conversation_of(Seq::empty(), instructions) is Ok,
        conversation_of(earlier.push(message), instructions) is Ok <==> conversation_of(
            earlier,
            instructions,
        ) is Ok && message_of(message) is Ok,
        conversation_of(earlier, instructions) is Err ==> conversation_of(
            earlier.push(message),
            instructions,
        ) == conversation_of(earlier, instructions),
{
    assert(earlier.push(message).drop_last() =~= earlier);
}

/// A message in several parts says the texts of its parts, and is accepted where each part has
/// one; the content of a message is a text or such a list.
pub proof fn law_message_in_parts_is_as_given(message: JsonView, parts: Seq<JsonView>)
    requires
        message.at("content"@) == JsonView::Array(parts),
        message.at("role"@) is Text,
        offered_roles().contains(message.at("role"@)->Text_0),
        message.field("tool_calls"@) is None,
        message.field("function_call"@) is None,
        message.field("type"@) is None || message.at("type"@) == JsonView::Text("message"@),
    ensures
        message_of(message) is Ok <==> content_text(JsonView::Array(parts)) is Ok,
        message_of(message) is Ok ==> message_of(message)->Ok_0.content == content_text(
            JsonView::Array(parts),
        )->Ok_0,
{
    lemma_roles(message.at("role"@)->Text_0);
}

/// A part that is no text, or has none, is refused; so is a content that is neither a text nor a
/// list of parts.
pub proof fn law_only_texts_have_text(part: JsonView, content: JsonView)
    ensures
        part_text(part) is Ok <==> part.at("text"@) is Text && (part.at("type"@)
            == JsonView::Text("text"@) || part.at("type"@) == JsonView::Text("input_text"@)
            || part.at("type"@) == JsonView::Text("output_text"@)),
        part_text(part) is Ok ==> part.at("text"@) == JsonView::Text(part_text(part)->Ok_0),
        content is Text ==> content_text(content) == Ok::<Seq<char>, Seq<char>>(content->Text_0),
        !(content is Text) && !(content is Array) ==> content_text(content) is Err,
{
}

/// What is read holds what was written: a message its role and its content, character by
/// character.
pub proof fn law_turn_is_what_it_holds(turn: Turn, prompt: Prompt)
    ensures
        turn@.role == turn.role@,
        turn@.content == turn.content@,
        prompt@.model == prompt.model@,
        prompt@.text == prompt.text@,
        prompt@.instructions == prompt.instructions@,
        prompt.effort is Some <==> prompt@.effort is Some,
        prompt.effort is Some ==> prompt@.effort->0 == prompt.effort->0@,
{
}

} // verus!
